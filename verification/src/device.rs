//! Capture devices and the choice of those to monitor.

use crate::display::same_text;
use crate::endpoint::IpAddress;
use vstd::prelude::*;

verus! {

/// A capture device as the packet source describes it.
#[derive(Debug, PartialEq, Eq)]
pub struct Device {
    pub name: String,
    /// The addresses that the device is bound to.
    pub addresses: Vec<IpAddress>,
    pub is_loopback: bool,
    pub is_up: bool,
    pub is_running: bool,
}

/// A device is monitored where it is up and running, is neither a
/// loopback device nor the pseudo-device `any`, and bears the wanted name
/// where one is asked for.
pub open spec fn is_monitored(device: Device, wanted: Option<String>) -> bool {
    &&& !device.is_loopback
    &&& device.is_up
    &&& device.is_running
    &&& device.name@ != "any"@
    &&& match wanted {
        Some(name) => device.name@ == name@,
        None => true,
    }
}

/// Whether `device` is one to monitor.
pub fn should_monitor(device: &Device, wanted: &Option<String>) -> (monitored: bool)
    ensures
        monitored == is_monitored(*device, *wanted),
{
    !device.is_loopback && device.is_up && device.is_running && !same_text(
        device.name.as_str(),
        "any",
    ) && match wanted {
        Some(name) => device.name == *name,
        None => true,
    }
}

/// The devices to monitor among `devices`, in their order.
pub fn select_devices(devices: Vec<Device>, wanted: &Option<String>) -> (selected: Vec<Device>)
    ensures
        selected@ == devices@.filter(|device: Device| is_monitored(device, *wanted)),
{
    let ghost chosen = |device: Device| is_monitored(device, *wanted);
    let mut selected: Vec<Device> = Vec::new();
    assert(devices@.take(0).filter(chosen) == Seq::<Device>::empty()) by {
        reveal(Seq::filter);
    }
    for device in it: devices
        invariant
            it.seq() == devices@,
            chosen == |device: Device| is_monitored(device, *wanted),
            selected@ == devices@.take(it.index()).filter(chosen),
    {
        proof {
            assert(devices@.take(it.index() + 1) == devices@.take(it.index()).push(device));
            devices@.take(it.index()).lemma_filter_push(device, chosen);
        }
        if should_monitor(&device, wanted) {
            selected.push(device);
        }
    }
    assert(devices@.take(devices@.len() as int) == devices@);
    selected
}

} // verus!
