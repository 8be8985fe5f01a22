//! Queues in chronological order.

use std::collections::VecDeque;
use std_test_device::chronology::{evict, insert, search};
use std_test_device::rewind::Recorded;

fn entry(timestamp: u64, input: char) -> Recorded<char> {
    Recorded { timestamp, input }
}

fn contents(entries: &VecDeque<Recorded<char>>) -> String {
    entries.iter().map(|e| e.input).collect()
}

fn sample() -> VecDeque<Recorded<char>> {
    VecDeque::from(vec![entry(10, 'a'), entry(20, 'b'), entry(20, 'c'), entry(40, 'd')])
}

#[test]
fn search_finds_an_entry_of_that_instant() {
    let entries = sample();
    assert_eq!(search(&entries, 10), Ok(0));
    assert_eq!(search(&entries, 40), Ok(3));
    let found = search(&entries, 20);
    assert!(found == Ok(1) || found == Ok(2));
}

#[test]
fn search_tells_the_place_of_a_missing_instant() {
    let entries = sample();
    assert_eq!(search(&entries, 5), Err(0));
    assert_eq!(search(&entries, 15), Err(1));
    assert_eq!(search(&entries, 30), Err(3));
    assert_eq!(search(&entries, 50), Err(4));
    assert_eq!(search(&VecDeque::<Recorded<char>>::new(), 5), Err(0));
}

#[test]
fn punctual_entries_go_to_the_end() {
    let mut entries = VecDeque::new();
    insert(&mut entries, entry(10, 'a'));
    insert(&mut entries, entry(20, 'b'));
    insert(&mut entries, entry(20, 'c'));
    assert_eq!(contents(&entries), "abc");
}

#[test]
fn late_entries_go_to_their_place() {
    let mut entries = sample();
    insert(&mut entries, entry(30, 'x'));
    insert(&mut entries, entry(5, 'y'));
    assert_eq!(contents(&entries), "yabcxd");
}

#[test]
fn eviction_drops_the_oldest() {
    let mut entries = sample();
    evict(&mut entries, 5);
    assert_eq!(contents(&entries), "abcd");
    evict(&mut entries, 2);
    assert_eq!(contents(&entries), "cd");
    evict(&mut entries, 0);
    assert_eq!(contents(&entries), "");
}

#[test]
fn insertion_order_makes_no_difference_even_with_eviction() {
    for limit in 0..7 {
        let mut one = sample();
        insert(&mut one, entry(15, 'x'));
        evict(&mut one, limit);
        insert(&mut one, entry(30, 'y'));
        evict(&mut one, limit);
        let mut other = sample();
        insert(&mut other, entry(30, 'y'));
        evict(&mut other, limit);
        insert(&mut other, entry(15, 'x'));
        evict(&mut other, limit);
        assert_eq!(contents(&one), contents(&other));
    }
}

#[test]
fn late_entries_go_right_before_one_of_their_instant() {
    let mut entries = sample();
    insert(&mut entries, entry(20, 'x'));
    let found = contents(&entries);
    assert!(found == "axbcd" || found == "abxcd");
    let mut entries = VecDeque::from(vec![entry(10, 'a'), entry(20, 'b'), entry(30, 'c')]);
    insert(&mut entries, entry(20, 'x'));
    assert_eq!(contents(&entries), "axbc");
    insert(&mut entries, entry(30, 'y'));
    assert_eq!(contents(&entries), "axbcy");
}
