//! Configuration for the CAN bus port adapter.
use vstd::prelude::*;

verus! {

/// CAN port model instance config.
#[derive(Debug)]
pub struct CanPortConfig {
    /// List of CAN interfaces.
    pub interfaces: Vec<String>,
    /// Time shift for scheduling events at the present moment, in
    /// milliseconds.
    ///
    /// If no value is provided, `period` is used.
    pub delta: Option<u64>,
    /// Activation period for cyclic activities inside the simulation, in
    /// milliseconds.
    ///
    /// If no value is provided, cyclic activities are not scheduled
    /// automatically.
    pub period: Option<u64>,
}

impl CanPortConfig {
    /// The periodic schedule this configuration asks for: the initial delay
    /// and the period, in milliseconds, or nothing when no period is set.
    /// A missing delay defaults to the period.
    pub fn schedule_params(&self) -> (r: Option<(u64, u64)>)
        ensures
            match self.period {
                Some(period) => r == Some(
                    (
                        match self.delta {
                            Some(delta) => delta,
                            None => period,
                        },
                        period,
                    ),
                ),
                None => r is None,
            },
    {
        match self.period {
            Some(period) => {
                let delta = match self.delta {
                    Some(delta) => delta,
                    None => period,
                };
                Some((delta, period))
            },
            None => None,
        }
    }
}

} // verus!
