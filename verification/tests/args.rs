//! Command-line arguments.

use std_test_device::Args;

#[test]
fn default_configuration_file() {
    assert_eq!(Args::default().config, "sim_config.toml");
}
