//! Compute device selection types.

use vstd::prelude::*;

verus! {

/// The kind of compute device an operation runs on.
#[derive(Debug, Clone, Copy, PartialEq, Eq, Structural)]
pub enum DeviceType {
    /// The host processor.
    Cpu,
    /// An accelerator.
    Gpu,
}

/// A compute device: its kind and its index among devices of that
/// kind.
#[derive(Debug, Clone, Copy, PartialEq, Eq, Structural)]
pub struct Device {
    /// The kind of device.
    pub device_type: DeviceType,
    /// The index of the device among those of its kind.
    pub index: i32,
}

/// Builds a device from its kind and index.
pub fn new_device(device_type: DeviceType, index: i32) -> (r: Device)
    ensures
        r.device_type == device_type,
        r.index == index,
{
    Device { device_type, index }
}

impl Default for Device {
    /// The first host processor.
    fn default() -> (r: Self)
        ensures
            r.device_type == DeviceType::Cpu,
            r.index == 0,
    {
        Device { device_type: DeviceType::Cpu, index: 0 }
    }
}

} // verus!
