//! Command-line arguments of the simulation.

use vstd::prelude::*;

verus! {

/// Arguments of a simulated test.
#[derive(Clone, Debug)]
pub struct Args {
    /// Path to the configuration file for the simulation.
    pub config: String,
}

impl Default for Args {
    /// The arguments of a test that is started without any.
    fn default() -> (args: Self)
        ensures
            args.config@ == "sim_config.toml"@,
    {
        Args { config: "sim_config.toml".to_string() }
    }
}

} // verus!
