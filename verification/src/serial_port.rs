//! Configuration for the serial port adapter.
use vstd::prelude::*;

verus! {

/// Serial port model instance configuration.
#[derive(Debug)]
pub struct SerialPortConfig {
    /// Baud rate.
    ///
    /// Zero value shall be used for software TTY interfaces.
    pub baud_rate: u32,
    /// Serial port path.
    pub port_path: String,
    /// Internal buffer size.
    ///
    /// Input is read and forwarded to the simulation by blocks up to buffer
    /// size.
    pub buffer_size: usize,
    /// Delay for the first scheduled data forwarding, in milliseconds.
    ///
    /// If no value is provided, `period` is used.
    pub delta: Option<u64>,
    /// Period at which data from the serial port is forwarded into the
    /// simulation, in milliseconds.
    ///
    /// If no value is provided, periodic activities are not scheduled
    /// automatically.
    pub period: Option<u64>,
}

impl SerialPortConfig {
    /// The periodic schedule this configuration asks for: the initial delay
    /// and the period, in milliseconds, or nothing when no period is set.
    /// A missing delay defaults to the period.
    pub fn schedule_params(&self) -> (r: Option<(u64, u64)>)
        ensures
            match self.period {
                Some(period) => r == Some(
                    (
                        match self.delta {
                            Some(delta) => delta,
                            None => period,
                        },
                        period,
                    ),
                ),
                None => r is None,
            },
    {
        match self.period {
            Some(period) => {
                let delta = match self.delta {
                    Some(delta) => delta,
                    None => period,
                };
                Some((delta, period))
            },
            None => None,
        }
    }
}

} // verus!
