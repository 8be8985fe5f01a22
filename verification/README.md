# std_test_device

A test device for an intercept drone in simulation: it climbs, looks for a moving target with
a strap-down camera and flies into it by proportional navigation.

- `src/` is the verified library: attitude history, line-of-sight filters that take late
  measurements, the guidance law, the path of the target, the guidance loop, the simulated
  camera, the course of the flight, and what is logged of it. Real-valued arithmetic is reached
  through model traits (`LosModel`, `EskfModel`, `GuidanceModel`, ...) whose methods are plain
  formulas; the contracts say which formula is applied to which values.
- `app/` holds the formulas in single precision, the tasks and channels, and the bindings to the
  firmware, the simulator and the viewer.
- `tests/` runs the library on whole numbers and on terms that spell out what was computed.

Timestamps are ticks of the embassy clock, one per microsecond.
