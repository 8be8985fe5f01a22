//! What is logged of a flight.

use std_test_device::rerun_logger::{
    log_drone_motors, Datum, EstimateLog, ImuLog, MotorLog, MotorModel, PidTerms, Record,
    RerunLogger, Telemetry, TRAIL_LEN,
};

fn sparse() -> Telemetry<&'static str> {
    Telemetry {
        motors: MotorLog { force: "force", command: "command", arrows: "arrows" },
        imu: None,
        target: None,
        gyr_comp: None,
        estimate: None,
        rate_sp: None,
        angl_sp: None,
        rate_ref_filt: None,
        rate_ff_pred: None,
        rate_comp_fuse: None,
        ahrs_attitude: None,
        rate_pid: None,
        ahrs_att: None,
        position: "position",
        rotation: "rotation",
        drone: "drone",
        line_of_sight: None,
    }
}

fn full() -> Telemetry<&'static str> {
    Telemetry {
        imu: Some(ImuLog { acc: "acc", gyr: "gyr" }),
        target: Some("target"),
        gyr_comp: Some("gyr_comp"),
        estimate: Some(EstimateLog {
            pos: "pos",
            vel: "vel",
            att: "att",
            gyr_bias: "gyr_bias",
            acc_bias: "acc_bias",
        }),
        rate_sp: Some("rate_sp"),
        angl_sp: Some("angl_sp"),
        rate_ref_filt: Some("rate_ref_filt"),
        rate_ff_pred: Some("rate_ff_pred"),
        rate_comp_fuse: Some("rate_comp_fuse"),
        ahrs_attitude: Some("ahrs_attitude"),
        rate_pid: Some((
            PidTerms { p: "xp", i: "xi", dr: "xdr", dm: "xdm" },
            PidTerms { p: "yp", i: "yi", dr: "ydr", dm: "ydm" },
            PidTerms { p: "zp", i: "zi", dr: "zdr", dm: "zdm" },
        )),
        ahrs_att: Some("ahrs_att"),
        line_of_sight: Some("line_of_sight"),
        ..sparse()
    }
}

fn lines(records: &[Record<i32, &'static str>]) -> Vec<String> {
    records
        .iter()
        .map(|record| match &record.datum {
            Datum::Trail(trail) => format!("{} {:?}", record.path, trail),
            Datum::Value(value) => format!("{} {}", record.path, value),
        })
        .collect()
}

#[test]
fn signals_without_a_value_are_left_out() {
    let mut logger = RerunLogger::new(1);
    assert_eq!(
        lines(&logger.log_now(7, sparse())),
        [
            "drone/motor/force force",
            "drone/motor/command command",
            "drone/motors arrows",
            "sim/position/trail [7]",
            "sim/position position",
            "sim/rotation rotation",
            "drone drone",
        ]
    );
}

#[test]
fn signals_are_logged_in_order() {
    let mut logger = RerunLogger::new(1);
    assert_eq!(
        lines(&logger.log_now(7, full())),
        [
            "drone/motor/force force",
            "drone/motor/command command",
            "drone/motors arrows",
            "sim/firmware/acc acc",
            "sim/firmware/gyr gyr",
            "target target",
            "sim/firmware/gyr_comp gyr_comp",
            "sim/firmware/eskf/pos pos",
            "sim/firmware/eskf/vel vel",
            "sim/firmware/eskf/att att",
            "sim/firmware/eskf/gyr_bias gyr_bias",
            "sim/firmware/eskf/acc_bias acc_bias",
            "sim/firmware/rate_sp rate_sp",
            "sim/firmware/angl_sp angl_sp",
            "sim/firmware/rate_ref_filt rate_ref_filt",
            "sim/firmware/rate_ff_pred rate_ff_pred",
            "sim/firmware/rate_comp_fuse rate_comp_fuse",
            "sim/firmware/ahrs_attitude ahrs_attitude",
            "sim/firmware/rate_pid/x/p xp",
            "sim/firmware/rate_pid/x/i xi",
            "sim/firmware/rate_pid/x/dr xdr",
            "sim/firmware/rate_pid/x/dm xdm",
            "sim/firmware/rate_pid/y/p yp",
            "sim/firmware/rate_pid/y/i yi",
            "sim/firmware/rate_pid/y/dr ydr",
            "sim/firmware/rate_pid/y/dm ydm",
            "sim/firmware/rate_pid/z/p zp",
            "sim/firmware/rate_pid/z/i zi",
            "sim/firmware/rate_pid/z/dr zdr",
            "sim/firmware/rate_pid/z/dm zdm",
            "sim/firmware/ahrs_att ahrs_att",
            "sim/position/trail [7]",
            "sim/position position",
            "sim/rotation rotation",
            "drone drone",
            "line_of_sight line_of_sight",
        ]
    );
}

fn trail(records: &[Record<i32, &'static str>]) -> Vec<i32> {
    for record in records {
        if let Datum::Trail(trail) = &record.datum {
            return trail.clone();
        }
    }
    unreachable!()
}

#[test]
fn simulated_pose_is_vital() {
    let mut logger = RerunLogger::new(1);
    let records = logger.log_now(7, full());
    let vital: Vec<&str> = records.iter().filter(|r| r.vital).map(|r| r.path).collect();
    assert_eq!(vital, ["sim/position/trail", "sim/position", "sim/rotation"]);
}

#[test]
fn trail_is_the_recent_past() {
    let mut logger = RerunLogger::new(1);
    logger.log_now(1, sparse());
    logger.log_now(2, sparse());
    assert_eq!(trail(&logger.log_now(3, sparse())), [3, 2, 1]);
    for i in 4..1001 {
        logger.log_now(i, sparse());
    }
    let last = trail(&logger.log_now(1001, sparse()));
    assert_eq!(TRAIL_LEN, 1000);
    assert_eq!(last.len(), 1000);
    assert_eq!(last[0], 1001);
    assert_eq!(last[999], 2);
}

#[test]
fn every_tenth_step_is_logged() {
    let mut logger: RerunLogger<i32> = RerunLogger::new(10);
    let due: Vec<bool> = (0..25).map(|_| logger.log_subsampled()).collect();
    let expected: Vec<bool> = (1..26).map(|step| step % 10 == 0).collect();
    assert_eq!(due, expected);
}

#[test]
fn logger_without_a_period_logs_every_step() {
    for period in [0, 1] {
        let mut logger: RerunLogger<i32> = RerunLogger::new(period);
        for _ in 0..5 {
            assert!(logger.log_subsampled());
        }
    }
}

struct Motors;

impl MotorModel for Motors {
    type Params = i32;
    type State = (i32, i32);
    type Scalar = i32;
    type Vector = i32;
    type Color = i32;

    fn force(&self, state: &(i32, i32)) -> i32 {
        state.0
    }

    fn command(&self, state: &(i32, i32)) -> i32 {
        state.1
    }

    fn arrow(&self, params: &i32, state: &(i32, i32)) -> i32 {
        params * state.0
    }

    fn origin(&self, params: &i32) -> i32 {
        -params
    }

    fn color(&self, command: i32) -> i32 {
        command + 1
    }
}

#[test]
fn motors_are_shown_as_arrows() {
    let shown = log_drone_motors(&Motors, &vec![1, 2, 3], &vec![(10, 5), (20, 6), (30, 7)]);
    assert_eq!(shown.forces, [10, 20, 30]);
    assert_eq!(shown.commands, [5, 6, 7]);
    assert_eq!(shown.arrow_lengths, [10, 40, 90]);
    assert_eq!(shown.arrow_origins, [-1, -2, -3]);
    assert_eq!(shown.arrow_colors, [6, 7, 8]);
}

#[test]
fn motors_without_a_state_or_parameters_are_left_out() {
    let shown = log_drone_motors(&Motors, &vec![1, 2, 3], &vec![(10, 5)]);
    assert_eq!(shown.forces, [10]);
    assert_eq!(shown.arrow_origins, [-1]);
    let shown = log_drone_motors(&Motors, &vec![1], &vec![(10, 5), (20, 6)]);
    assert_eq!(shown.commands, [5]);
    assert_eq!(shown.arrow_colors, [6]);
    let shown = log_drone_motors(&Motors, &vec![], &vec![]);
    assert_eq!(shown.arrow_lengths.len(), 0);
}
