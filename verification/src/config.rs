//! Host runtime policy read by rules: physical projection mode and the logical IO clock.
use vstd::prelude::*;

verus! {

/// Whether light facts may be derived by rules (`Simulation`) or must come from IO.
#[derive(Clone, Copy, PartialEq, Eq, Structural, Debug)]
pub enum PhysicalProjectionMode {
    Simulation,
    IoAnchored,
}

impl Default for PhysicalProjectionMode {
    fn default() -> (r: Self)
        ensures
            r == PhysicalProjectionMode::Simulation,
    {
        PhysicalProjectionMode::Simulation
    }
}

/// What rules may read of the host runtime policy.
pub trait HostRuntimeConfig {
    fn physical_projection_mode(&self) -> PhysicalProjectionMode;

    fn io_timeout_logical_delta(&self) -> i64;
}

/// Defaults for tests and registries: `Simulation`, a logical IO timeout of 60.
#[derive(Clone, Copy, PartialEq, Eq, Structural, Debug, Default)]
pub struct DefaultHostConfig;

impl HostRuntimeConfig for DefaultHostConfig {
    fn physical_projection_mode(&self) -> (m: PhysicalProjectionMode)
        ensures
            m == PhysicalProjectionMode::Simulation,
    {
        PhysicalProjectionMode::Simulation
    }

    fn io_timeout_logical_delta(&self) -> (d: i64)
        ensures
            d == 60,
    {
        60
    }
}

/// Snapshot injected at process start: projection mode and logical IO timeout.
#[derive(Clone, Copy, PartialEq, Eq, Structural, Debug)]
pub struct ConfigSnapshot {
    pub physical_projection_mode: PhysicalProjectionMode,
    /// `Dispatched.logical_deadline = trigger_ts + delta`.
    pub io_timeout_logical_delta: i64,
}

/// The logical IO timeout used when none is configured.
pub fn default_io_timeout_logical_delta() -> (d: i64)
    ensures
        d == 60,
{
    60
}

impl Default for ConfigSnapshot {
    fn default() -> (r: Self)
        ensures
            r.physical_projection_mode == PhysicalProjectionMode::Simulation,
            r.io_timeout_logical_delta == 60,
    {
        ConfigSnapshot {
            physical_projection_mode: PhysicalProjectionMode::Simulation,
            io_timeout_logical_delta: default_io_timeout_logical_delta(),
        }
    }
}

impl HostRuntimeConfig for ConfigSnapshot {
    fn physical_projection_mode(&self) -> (m: PhysicalProjectionMode)
        ensures
            m == self.physical_projection_mode,
    {
        self.physical_projection_mode
    }

    fn io_timeout_logical_delta(&self) -> (d: i64)
        ensures
            d == self.io_timeout_logical_delta,
    {
        self.io_timeout_logical_delta
    }
}

} // verus!
