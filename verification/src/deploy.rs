//! Blue-green deploy state kept between CLI invocations.
use vstd::prelude::*;

verus! {

/// Last known previous and active config paths, for `nusa rollback`.
#[derive(Debug)]
pub struct DeployState {
    pub previous_config: String,
    pub active_config: String,
}

impl Clone for DeployState {
    fn clone(&self) -> (d: DeployState)
        ensures
            d.previous_config@ == self.previous_config@,
            d.active_config@ == self.active_config@,
    {
        DeployState { previous_config: self.previous_config.clone(), active_config: self.active_config.clone() }
    }
}

/// The state after switching from config `previous` to config `active`.
pub fn deploy_state(previous: &str, active: &str) -> (d: DeployState)
    ensures
        d.previous_config@ == previous@,
        d.active_config@ == active@,
{
    DeployState { previous_config: previous.to_string(), active_config: active.to_string() }
}

/// The directory holding the state file.
pub fn state_dir() -> (s: String)
    ensures
        s@ == ".nusa"@,
{
    ".nusa".to_string()
}

/// Where the state is kept: `.nusa/deploy-state.toml`.
pub fn state_path() -> (s: String)
    ensures
        s@ == ".nusa/deploy-state.toml"@,
{
    ".nusa/deploy-state.toml".to_string()
}

} // verus!
