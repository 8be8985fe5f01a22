//! The course of a simulated flight: what the vehicle is told before the guidance takes
//! over, and the events that the guidance lives on.

use vstd::prelude::*;
use crate::clock::ticks_at_micros;

verus! {

/// How long the vehicle is left alone at first, in microseconds.
pub const SETTLE_US: u64 = 1_000_000;

/// How many thrust commands the climb consists of.
pub const CLIMB_STEPS: u16 = 350;

/// How long each of them holds, in microseconds.
pub const CLIMB_STEP_US: u64 = 20_000;

/// The thrust of the climb, in newtons. It is also the most that the guidance may ask for,
/// so that there is always some left to turn with.
pub const THRUST_LIMIT: u16 = 25;

/// How a vehicle reads its commands.
#[derive(Clone, Copy, Debug, PartialEq, Eq, Structural)]
pub enum ControlMode {
    /// The commands are attitudes.
    Angle,
}

/// What to do next.
#[derive(Clone, Copy, Debug, PartialEq, Eq, Structural)]
pub enum FlightAction {
    /// Let `us` microseconds pass.
    Wait { us: u64 },
    /// Ask the commander to arm or disarm the motors.
    ArmDisarm { arm: bool, force: bool },
    /// Ask the commander for a control mode.
    SetControlMode(ControlMode),
    /// Wait until the motors are armed.
    AwaitArmed,
    /// Ask for a level attitude and `thrust` newtons, and let `us` microseconds pass.
    Climb { thrust: u16, us: u64 },
    /// Tell the sensors that their events will be taken.
    SignalReady,
    /// Run the guidance.
    Guide,
}

/// The `n`-th action of a flight.
pub open spec fn action_at(n: int) -> FlightAction {
    if n <= 0 {
        FlightAction::Wait { us: SETTLE_US }
    } else if n == 1 {
        FlightAction::ArmDisarm { arm: true, force: true }
    } else if n == 2 {
        FlightAction::SetControlMode(ControlMode::Angle)
    } else if n == 3 {
        FlightAction::AwaitArmed
    } else if n < 4 + CLIMB_STEPS {
        FlightAction::Climb { thrust: THRUST_LIMIT, us: CLIMB_STEP_US }
    } else if n == 4 + CLIMB_STEPS {
        FlightAction::SignalReady
    } else {
        FlightAction::Guide
    }
}

/// The stage that a flight has reached.
#[derive(Clone, Copy, Debug, PartialEq, Eq, Structural)]
enum Stage {
    Grounded,
    Settled,
    ArmingSent,
    ModeSent,
    /// So many thrust commands have been given.
    Climbing(u16),
    Guided,
}

/// A flight from the ground to the guidance.
pub struct FlightScript {
    stage: Stage,
}

impl FlightScript {
    /// How many actions there have been, up to the first that runs the guidance.
    pub closed spec fn done(self) -> int {
        match self.stage {
            Stage::Grounded => 0,
            Stage::Settled => 1,
            Stage::ArmingSent => 2,
            Stage::ModeSent => 3,
            Stage::Climbing(n) => 4 + n,
            Stage::Guided => 5 + CLIMB_STEPS,
        }
    }

    /// No more thrust commands have been given than the climb consists of.
    pub closed spec fn wf(self) -> bool {
        self.stage matches Stage::Climbing(n) ==> n <= CLIMB_STEPS
    }

    /// A flight that has not begun.
    pub fn new() -> (r: Self)
        ensures
            r.wf(),
            r.done() == 0,
    {
        FlightScript { stage: Stage::Grounded }
    }

    /// The next action. Once the guidance runs, it runs on.
    pub fn next_action(&mut self) -> (action: FlightAction)
        requires
            old(self).wf(),
        ensures
            final(self).wf(),
            action == action_at(old(self).done()),
            final(self).done() == (if action == FlightAction::Guide {
                old(self).done()
            } else {
                old(self).done() + 1
            }),
    {
        match self.stage {
            Stage::Grounded => {
                self.stage = Stage::Settled;
                FlightAction::Wait { us: SETTLE_US }
            },
            Stage::Settled => {
                self.stage = Stage::ArmingSent;
                FlightAction::ArmDisarm { arm: true, force: true }
            },
            Stage::ArmingSent => {
                self.stage = Stage::ModeSent;
                FlightAction::SetControlMode(ControlMode::Angle)
            },
            Stage::ModeSent => {
                self.stage = Stage::Climbing(0);
                FlightAction::AwaitArmed
            },
            Stage::Climbing(n) => {
                if n < CLIMB_STEPS {
                    self.stage = Stage::Climbing(n + 1);
                    FlightAction::Climb { thrust: THRUST_LIMIT, us: CLIMB_STEP_US }
                } else {
                    self.stage = Stage::Guided;
                    FlightAction::SignalReady
                }
            },
            Stage::Guided => FlightAction::Guide,
        }
    }
}

/// How long the first `n` actions of a flight let pass, in microseconds.
pub open spec fn time_of(n: nat) -> int
    decreases n,
{
    if n == 0 {
        0
    } else {
        time_of((n - 1) as nat) + match action_at(n - 1) {
            FlightAction::Wait { us } => us as int,
            FlightAction::Climb { thrust: _, us } => us as int,
            _ => 0,
        }
    }
}

/// The guidance takes over after the motors are armed, the vehicle has climbed for seven
/// seconds and the sensors have been told; and not before. No step of the climb asks for more
/// than the thrust limit.
pub proof fn guidance_follows_the_climb(n: int)
    ensures
        action_at(n) == FlightAction::Guide <==> n > 4 + CLIMB_STEPS,
        action_at(3) == FlightAction::AwaitArmed,
        action_at(n) is Climb <==> 4 <= n < 4 + CLIMB_STEPS,
        action_at(n) matches FlightAction::Climb { thrust, us } ==> thrust <= THRUST_LIMIT && us
            == CLIMB_STEP_US,
        action_at(4 + CLIMB_STEPS) == FlightAction::SignalReady,
        time_of((4 + CLIMB_STEPS) as nat) == SETTLE_US + 7_000_000,
{
    climb_adds_up(CLIMB_STEPS as nat);
}

/// The climb lasts as long as its steps do.
proof fn climb_adds_up(k: nat)
    requires
        k <= CLIMB_STEPS,
    ensures
        time_of(4 + k) == SETTLE_US + k * CLIMB_STEP_US,
    decreases k,
{
    if k == 0 {
        reveal_with_fuel(time_of, 5);
    } else {
        climb_adds_up((k - 1) as nat);
    }
}

/// What a sensor has to tell.
#[derive(Debug)]
pub enum Event<S, Q, R> {
    /// The camera has seen the target.
    Camera { timestamp: u64, target_pixel: (S, S) },
    /// The attitude has been estimated.
    Attitude { timestamp: u64, attitude: Q, angular_vel: R },
}

/// The event of an attitude estimated `timestamp_us` microseconds after start-up.
pub fn attitude_event<S, Q, R>(timestamp_us: u64, attitude: Q, angular_vel: R) -> (event: Event<
    S,
    Q,
    R,
>)
    ensures
        event == (Event::<S, Q, R>::Attitude { timestamp: timestamp_us, attitude, angular_vel }),
{
    Event::Attitude { timestamp: ticks_at_micros(timestamp_us), attitude, angular_vel }
}

/// A flight waits for a second, arms the motors by force, asks for attitude control and waits
/// until it is armed, in this order, before it climbs; each of 350 steps of the climb asks for
/// 25 newtons and holds for 20 milliseconds.
pub proof fn flights_are_armed_before_they_climb(n: int)
    ensures
        action_at(0) == (FlightAction::Wait { us: 1_000_000 }),
        action_at(1) == (FlightAction::ArmDisarm { arm: true, force: true }),
        action_at(2) == FlightAction::SetControlMode(ControlMode::Angle),
        action_at(3) == FlightAction::AwaitArmed,
        4 <= n < 354 ==> action_at(n) == (FlightAction::Climb { thrust: 25, us: 20_000 }),
        action_at(354) == FlightAction::SignalReady,
        n > 354 ==> action_at(n) == FlightAction::Guide,
{
}

/// An attitude is passed on as it is, stamped with the instant at which it was estimated.
pub proof fn attitudes_keep_their_instant<S, Q, R>(
    timestamp_us: u64,
    attitude: Q,
    angular_vel: R,
    event: Event<S, Q, R>,
)
    requires
        call_ensures(attitude_event::<S, Q, R>, (timestamp_us, attitude, angular_vel), event),
    ensures
        event is Attitude,
        event->Attitude_timestamp == timestamp_us,
        event->attitude == attitude,
        event->angular_vel == angular_vel,
{
}

/// A call of [`FlightScript::next_action`] gives the next action of the flight, and the one after
/// that comes next, until the guidance runs, which it then does for good.
pub proof fn actions_come_in_order(script: &mut FlightScript, action: FlightAction)
    requires
        old(script).wf(),
        call_ensures(FlightScript::next_action, (script,), action),
    ensures
        action == action_at(old(script).done()),
        old(script).done() <= 354 ==> final(script).done() == old(script).done() + 1,
        old(script).done() > 354 ==> final(script).done() == old(script).done() && action
            == FlightAction::Guide,
{
}

/// A flight starts at its first action.
pub proof fn flights_start_at_the_first_action(script: FlightScript)
    requires
        call_ensures(FlightScript::new, (), script),
    ensures
        script.wf(),
        script.done() == 0,
{
}

} // verus!
