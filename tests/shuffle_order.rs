use capitals_quiz::quiz::Entry;
use capitals_quiz::shuffle::{
    reverse_phase, reverse_suffix, rotate_phase, seed_byte, shuffle, start_index,
};

#[test]
fn five_items_seed_zero() {
    let mut v: Vec<usize> = vec![0, 1, 2, 3, 4];
    assert_eq!(start_index(5, 0), 0);
    let mut rotated = v.clone();
    rotate_phase(&mut rotated, 0);
    assert_eq!(rotated, vec![0, 1, 2, 3, 4]);
    shuffle(&mut v, 0);
    assert_eq!(v, vec![4, 0, 3, 1, 2]);
}

#[test]
fn thirty_four_items_seed_forty() {
    let start = start_index(34, 40);
    assert_eq!(start, 6);
    let mut v: Vec<usize> = (0..34).collect();
    rotate_phase(&mut v, start);
    let expected_rotated: Vec<usize> = vec![
        6, 7, 8, 9, 10, 11, 12, 13, 14, 15, 16, 17, 18, 19, 20, 21, 22, 23, 24, 25, 26, 27, 28,
        29, 30, 31, 32, 33, 4, 5, 0, 1, 2, 3,
    ];
    assert_eq!(v, expected_rotated);

    let mut w: Vec<usize> = (0..34).collect();
    shuffle(&mut w, 40);
    let expected: Vec<usize> = vec![
        3, 6, 2, 7, 1, 8, 0, 9, 5, 10, 4, 11, 33, 12, 32, 13, 31, 14, 30, 15, 29, 16, 28, 17, 27,
        18, 26, 19, 25, 20, 24, 21, 23, 22,
    ];
    assert_eq!(w, expected);
}

#[test]
fn single_item_is_unchanged() {
    for seed in [0u8, 1, 77, 255] {
        let mut v: Vec<usize> = vec![9];
        shuffle(&mut v, seed);
        assert_eq!(v, vec![9]);
    }
}

#[test]
fn seed_above_length_wraps() {
    let mut v: Vec<usize> = vec![0, 1, 2, 3, 4];
    shuffle(&mut v, 7);
    assert_eq!(v, vec![0, 2, 1, 3, 4]);
    let mut u: Vec<usize> = vec![0, 1, 2];
    shuffle(&mut u, 255);
    assert_eq!(u, vec![2, 0, 1]);
}

#[test]
fn start_index_values() {
    assert_eq!(start_index(34, 0), 0);
    assert_eq!(start_index(34, 33), 33);
    assert_eq!(start_index(34, 34), 0);
    assert_eq!(start_index(34, 255), 17);
    assert_eq!(start_index(1, 200), 0);
}

#[test]
fn seed_byte_is_lowest_byte() {
    assert_eq!(seed_byte(0x1234_5678), 0x78);
    assert_eq!(seed_byte(255), 255);
    assert_eq!(seed_byte(256), 0);
}

#[test]
fn shuffle_keeps_every_item() {
    for seed in [0u8, 3, 6, 40, 128, 255] {
        let input: Vec<u32> = vec![5, 1, 1, 7, 3, 3, 3, 9, 0, 5];
        let mut v = input.clone();
        shuffle(&mut v, seed);
        assert_eq!(v.len(), input.len());
        let mut a = v.clone();
        a.sort();
        let mut b = input.clone();
        b.sort();
        assert_eq!(a, b);
    }
}

#[test]
fn same_seed_gives_same_order() {
    for seed in [0u8, 11, 40, 200] {
        let mut ids: Vec<usize> = (0..34).collect();
        shuffle(&mut ids, seed);
        let mut again: Vec<usize> = (0..34).collect();
        shuffle(&mut again, seed);
        assert_eq!(ids, again);
        let letters: Vec<u32> = (0..34).map(|k| 1000 + 3 * k).collect();
        let mut shuffled = letters.clone();
        shuffle(&mut shuffled, seed);
        for k in 0..34 {
            assert_eq!(shuffled[k], letters[ids[k]]);
        }
    }
}

#[test]
fn reverse_suffix_and_phase() {
    let mut v: Vec<usize> = vec![0, 1, 2, 3, 4];
    reverse_suffix(&mut v, 0);
    assert_eq!(v, vec![4, 3, 2, 1, 0]);
    reverse_suffix(&mut v, 1);
    assert_eq!(v, vec![4, 0, 1, 2, 3]);
    reverse_suffix(&mut v, 5);
    assert_eq!(v, vec![4, 0, 1, 2, 3]);
    let mut w: Vec<usize> = vec![0, 1, 2, 3, 4, 5];
    reverse_phase(&mut w);
    assert_eq!(w, vec![5, 0, 4, 1, 3, 2]);
}

#[test]
fn shuffle_moves_entries() {
    let mut v = vec![
        Entry::new("Argentina", "🇦🇷", "Buenos Aires"),
        Entry::new("Canada", "🇨🇦", "Ottawa"),
        Entry::new("Peru", "🇵🇪", "Lima"),
    ];
    shuffle(&mut v, 0);
    let names: Vec<&str> = v.iter().map(|e| e.name.as_str()).collect();
    assert_eq!(names, vec!["Peru", "Argentina", "Canada"]);
    assert_eq!(v[0].capital, "Lima");
}
