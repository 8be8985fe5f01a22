//! Filters that take measurements in any order of arrival.

use std_test_device::rewind::{Process, Rewind};

/// A process whose state spells out what has happened to it.
struct Diary;

fn noted(text: String) -> &'static str {
    Box::leak(text.into_boxed_str())
}

impl Process for Diary {
    type State = &'static str;
    type Input = char;

    fn step(&self, state: &'static str, input: char, dt_us: u64) -> &'static str {
        noted(format!("{state}+{dt_us}{input}"))
    }

    fn coast(&self, state: &'static str, dt_us: u64) -> &'static str {
        noted(format!("{state}+{dt_us}"))
    }
}

fn fresh(max_history: usize) -> Rewind<Diary> {
    Rewind::new(Diary, "", max_history)
}

#[test]
fn punctual_inputs_are_taken_in_turn() {
    let mut filter = fresh(8);
    assert_eq!(filter.state(), "");
    filter.fuse(100, 'a');
    assert_eq!(filter.state(), "+0a");
    filter.fuse(150, 'b');
    assert_eq!(filter.state(), "+0a+50b");
    filter.fuse(150, 'c');
    assert_eq!(filter.state(), "+0a+50b+0c");
}

#[test]
fn late_input_is_taken_in_at_its_place() {
    let mut filter = fresh(8);
    filter.fuse(100, 'a');
    filter.fuse(200, 'c');
    filter.fuse(300, 'd');
    filter.fuse(150, 'b');
    assert_eq!(filter.state(), "+0a+50b+50c+100d");
}

#[test]
fn input_older_than_everything_is_replayed_from_scratch() {
    let mut filter = fresh(8);
    filter.fuse(200, 'b');
    filter.fuse(300, 'c');
    filter.fuse(100, 'a');
    assert_eq!(filter.state(), "+0a+100b+100c");
}

#[test]
fn all_orders_of_arrival_lead_to_the_same_state() {
    let inputs = [(100, 'a'), (160, 'b'), (170, 'c'), (300, 'd')];
    for first in 0..4 {
        for second in 0..4 {
            for third in 0..4 {
                for fourth in 0..4 {
                    let order = [first, second, third, fourth];
                    let mut sorted = order;
                    sorted.sort_unstable();
                    if sorted != [0, 1, 2, 3] {
                        continue;
                    }
                    let mut filter = fresh(8);
                    for i in order {
                        filter.fuse(inputs[i].0, inputs[i].1);
                    }
                    assert_eq!(filter.state(), "+0a+60b+10c+130d");
                }
            }
        }
    }
}

#[test]
fn late_inputs_are_made_up_for_after_older_ones_are_forgotten() {
    let mut filter = fresh(3);
    filter.fuse(100, 'a');
    filter.fuse(200, 'b');
    filter.fuse(300, 'c');
    filter.fuse(400, 'd');
    filter.fuse(250, 'x');
    assert_eq!(filter.state(), "+0a+100b+50x+50c+100d");
    filter.fuse(350, 'y');
    assert_eq!(filter.state(), "+0a+100b+50x+50c+50y+50d");
}

#[test]
fn inputs_beyond_the_history_start_the_filter_afresh() {
    let mut filter = fresh(2);
    filter.fuse(100, 'a');
    filter.fuse(200, 'b');
    filter.fuse(300, 'c');
    filter.fuse(50, 'x');
    assert_eq!(filter.state(), "+0b+100c");
}

#[test]
fn coasting_moves_the_state_on() {
    let mut filter = fresh(8);
    filter.predict_to(500);
    assert_eq!(filter.state(), "");
    filter.fuse(100, 'a');
    filter.predict_to(100);
    assert_eq!(filter.state(), "+0a");
    filter.predict_to(90);
    assert_eq!(filter.state(), "+0a");
    filter.predict_to(130);
    assert_eq!(filter.state(), "+0a+30");
    filter.predict_to(150);
    assert_eq!(filter.state(), "+0a+50");
}

#[test]
fn coasting_does_not_disturb_late_ones() {
    let mut filter = fresh(8);
    filter.fuse(100, 'a');
    filter.fuse(200, 'c');
    filter.predict_to(300);
    filter.fuse(150, 'b');
    assert_eq!(filter.state(), "+0a+50b+50c");
}

#[test]
fn coasting_is_undone_by_inputs_it_has_overtaken() {
    let mut filter = fresh(8);
    filter.fuse(100, 'a');
    filter.predict_to(300);
    filter.fuse(200, 'b');
    assert_eq!(filter.state(), "+0a+100b");
}

#[test]
fn punctual_input_finds_the_filter_as_the_last_one_left_it() {
    let mut filter = fresh(8);
    filter.fuse(100, 'a');
    filter.predict_to(300);
    filter.fuse(350, 'b');
    assert_eq!(filter.state(), "+0a+250b");
}

#[test]
fn input_at_the_coasted_instant_sees_the_whole_time_pass() {
    let mut filter = fresh(8);
    filter.fuse(100, 'a');
    filter.predict_to(300);
    filter.fuse(300, 'b');
    assert_eq!(filter.state(), "+0a+200b");
}

#[test]
fn coasting_does_not_disturb_any_input() {
    for timestamp in [50, 100, 150, 200, 250, 300, 350] {
        let mut coasted = fresh(8);
        let mut resting = fresh(8);
        for filter in [&mut coasted, &mut resting] {
            filter.fuse(100, 'a');
            filter.fuse(200, 'b');
        }
        coasted.predict_to(240);
        coasted.predict_to(300);
        coasted.fuse(timestamp, 'c');
        resting.fuse(timestamp, 'c');
        assert_eq!(coasted.state(), resting.state());
        coasted.fuse(400, 'd');
        resting.fuse(400, 'd');
        assert_eq!(coasted.state(), resting.state());
    }
}

#[test]
fn coasting_in_parts_is_coasting_at_once() {
    let mut parts = fresh(8);
    let mut whole = fresh(8);
    for filter in [&mut parts, &mut whole] {
        filter.fuse(100, 'a');
    }
    parts.predict_to(110);
    parts.predict_to(160);
    parts.predict_to(190);
    whole.predict_to(190);
    assert_eq!(parts.state(), whole.state());
    assert_eq!(whole.state(), "+0a+90");
}

#[test]
fn reset_forgets_everything() {
    let mut filter = fresh(8);
    filter.fuse(100, 'a');
    filter.fuse(200, 'b');
    filter.reset();
    assert_eq!(filter.state(), "");
    filter.fuse(50, 'c');
    assert_eq!(filter.state(), "+0c");
}

#[test]
fn any_number_of_coasts_is_undone() {
    let mut filter = fresh(8);
    filter.fuse(100, 'a');
    filter.fuse(150, 'b');
    filter.predict_to(160);
    filter.predict_to(170);
    filter.predict_to(190);
    filter.fuse(180, 'c');
    assert_eq!(filter.state(), "+0a+50b+30c");
    filter.predict_to(300);
    filter.predict_to(310);
    filter.fuse(170, 'd');
    assert_eq!(filter.state(), "+0a+50b+20d+10c");
}

#[test]
fn coasting_is_undone_by_an_input_of_the_last_instant() {
    let mut coasted = fresh(8);
    let mut resting = fresh(8);
    for filter in [&mut coasted, &mut resting] {
        filter.fuse(100, 'a');
        filter.fuse(150, 'b');
    }
    coasted.predict_to(200);
    coasted.fuse(150, 'c');
    resting.fuse(150, 'c');
    assert_eq!(coasted.state(), resting.state());
    assert_eq!(coasted.state(), "+0a+50b+0c");
}

#[test]
fn late_input_of_a_known_instant_is_taken_in_first() {
    let mut filter = fresh(8);
    filter.fuse(100, 'a');
    filter.fuse(150, 'b');
    filter.fuse(200, 'c');
    filter.fuse(150, 'x');
    assert_eq!(filter.state(), "+0a+50x+0b+50c");
}

#[test]
fn same_inputs_lead_to_the_same_state_with_coasts_in_between() {
    let mut filter = fresh(4);
    filter.predict_to(50);
    filter.fuse(170, 'c');
    filter.predict_to(400);
    filter.fuse(300, 'd');
    filter.fuse(100, 'a');
    filter.predict_to(500);
    filter.predict_to(600);
    filter.fuse(160, 'b');
    assert_eq!(filter.state(), "+0a+60b+10c+130d");
}
