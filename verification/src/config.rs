//! The runner's configuration: the commands it can launch.

use vstd::prelude::*;

verus! {

/// A named command that the runner launches on request.
#[derive(Clone, Debug, PartialEq, Eq)]
pub struct Wake {
    /// The key a request names the wake by.
    pub name: String,
    /// The executable to run.
    pub command: String,
    /// Whether several instances may run at once. Nothing enforces it.
    pub multiple_instances: bool,
    /// The directory to run in, if not the runner's own.
    pub working_directory: Option<String>,
    /// The arguments handed to the executable.
    pub arguments: Vec<String>,
}

/// The runner's configuration.
#[derive(Clone, Debug, PartialEq, Eq)]
pub struct Config {
    pub wakes: Vec<Wake>,
}

impl Config {
    /// The configuration of a runner that was given none: no wakes.
    pub fn default() -> (config: Config)
        ensures
            config.wakes@.len() == 0,
    {
        Config { wakes: Vec::new() }
    }
}

/// Where the configuration comes from.
#[derive(Clone, Copy, Debug, PartialEq, Eq)]
pub enum ConfigSource {
    /// The candidate file at this position.
    File(usize),
    /// No candidate could be read: the default configuration, which is then
    /// written to the first candidate.
    Default,
}

/// Picks the configuration's source, given for each candidate file, in order
/// of preference, whether it could be read: the first readable one, or the
/// default when there is none.
pub fn init_config(readable: &Vec<bool>) -> (source: ConfigSource)
    ensures
        source is Default <==> forall|k: int| 0 <= k < readable@.len() ==> !readable@[k],
        source matches ConfigSource::File(i) ==> i < readable@.len() && readable@[i as int]
            && forall|k: int| 0 <= k < i ==> !readable@[k],
{
    let mut i: usize = 0;
    while i < readable.len()
        invariant
            i <= readable@.len(),
            forall|k: int| 0 <= k < i ==> !readable@[k],
        decreases readable@.len() - i,
    {
        if readable[i] {
            return ConfigSource::File(i);
        }
        i += 1;
    }
    ConfigSource::Default
}

} // verus!
