//! The course of a flight up to the guidance.

use std_test_device::flight::{
    attitude_event, ControlMode, FlightAction, FlightScript, CLIMB_STEPS,
};
use std_test_device::Event;

#[test]
fn flight_begins_with_arming() {
    let mut script = FlightScript::new();
    assert_eq!(script.next_action(), FlightAction::Wait { us: 1_000_000 });
    assert_eq!(script.next_action(), FlightAction::ArmDisarm { arm: true, force: true });
    assert_eq!(script.next_action(), FlightAction::SetControlMode(ControlMode::Angle));
    assert_eq!(script.next_action(), FlightAction::AwaitArmed);
    assert_eq!(script.next_action(), FlightAction::Climb { thrust: 25, us: 20_000 });
}

#[test]
fn guidance_follows_the_climb() {
    let mut script = FlightScript::new();
    let mut waited: u64 = 0;
    let mut climbs: u16 = 0;
    let mut armed = false;
    loop {
        match script.next_action() {
            FlightAction::Wait { us } => waited += us,
            FlightAction::Climb { thrust, us } => {
                assert!(armed);
                assert_eq!(thrust, 25);
                climbs += 1;
                waited += us;
            }
            FlightAction::AwaitArmed => armed = true,
            FlightAction::SignalReady => break,
            FlightAction::Guide => unreachable!(),
            _ => {}
        }
    }
    assert_eq!(climbs, CLIMB_STEPS);
    assert_eq!(climbs, 350);
    assert_eq!(waited, 8_000_000);
    for _ in 0..10 {
        assert_eq!(script.next_action(), FlightAction::Guide);
    }
}

#[test]
fn attitudes_are_stamped_with_the_instant_of_their_estimate() {
    let event: Event<i32, &str, &str> = attitude_event(1_234_567, "q", "w");
    match event {
        Event::Attitude { timestamp, attitude, angular_vel } => {
            assert_eq!((timestamp, attitude, angular_vel), (1_234_567, "q", "w"));
        }
        Event::Camera { .. } => unreachable!(),
    }
}
