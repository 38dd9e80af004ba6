use fast_geoip::{file_binary_search, floor_search};

fn floor_by_scan(list: &[u32], q: u32) -> isize {
    let mut found: isize = -1;
    for (i, k) in list.iter().enumerate() {
        if *k <= q {
            found = i as isize;
        }
    }
    found
}

#[test]
fn floor_search_contains_the_query() {
    let list: Vec<u32> = (0..200u32).map(|i| 7 + i * 13 + (i * i) % 5).collect();
    for q in 0..2800u32 {
        let r = file_binary_search(&list, q);
        assert_eq!(r, floor_by_scan(&list, q));
        if q < list[0] {
            assert_eq!(r, -1);
        } else {
            let i = r as usize;
            assert!(list[i] <= q);
            assert!(i == list.len() - 1 || q < list[i + 1]);
        }
    }
}

#[test]
fn floor_search_ends_for_every_length() {
    for len in 1..64u32 {
        let list: Vec<u32> = (0..len).map(|i| 100 + 10 * i).collect();
        for q in [0, 99, 100, 101, 105, 109, 110, 100 + 10 * len, u32::MAX] {
            assert_eq!(file_binary_search(&list, q), floor_by_scan(&list, q));
        }
    }
}

#[test]
fn floor_search_on_single_and_empty_shards() {
    assert_eq!(floor_search(&vec![50u32], 49), None);
    assert_eq!(floor_search(&vec![50u32], 50), Some(0));
    assert_eq!(floor_search(&vec![50u32], u32::MAX), Some(0));
    assert_eq!(floor_search(&Vec::<u32>::new(), 50), None);
    assert_eq!(file_binary_search(&vec![0u32, u32::MAX], u32::MAX), 1);
}

#[test]
fn floor_search_ends_on_unsorted_lists() {
    let lists: Vec<Vec<u32>> = vec![vec![5, 1, 9, 3], vec![7, 7, 7], vec![u32::MAX, 0]];
    for list in &lists {
        for q in [0, 1, 4, 7, 9, u32::MAX] {
            let r = file_binary_search(list, q);
            assert!(r >= -1 && r < list.len() as isize);
        }
    }
}
