//! The device picker's state: the most recent device list the core sent,
//! and turning a click on a device into the `Connect` message for it.

use vstd::prelude::*;
use crate::ipc::{clone_devices, devices_view, CoreToTray, CoreToTrayView, DeviceView, DiscoveredDevice, TrayToCore};
use crate::text::str_equal;

verus! {

/// The picker's state: the most recently received device list.
#[derive(Debug)]
pub struct DevicePicker {
    devices: Vec<DiscoveredDevice>,
}

impl DevicePicker {
    /// The devices the picker shows, in receipt order.
    pub closed spec fn shown(&self) -> Seq<DeviceView> {
        devices_view(self.devices@)
    }

    pub fn new() -> (p: Self)
        ensures
            p.shown() == Seq::<DeviceView>::empty(),
    {
        let p = DevicePicker { devices: Vec::new() };
        assert(devices_view(p.devices@) =~= Seq::<DeviceView>::empty());
        p
    }

    /// Applies a core message: a device list replaces the shown devices;
    /// `Status` and `Error` leave them.
    pub fn apply(&mut self, msg: &CoreToTray)
        ensures
            match msg@ {
                CoreToTrayView::DeviceList(ds) => final(self).shown() == ds,
                _ => final(self).shown() == old(self).shown(),
            },
    {
        if let CoreToTray::DeviceList(devices) = msg {
            self.devices = clone_devices(devices);
        }
    }

    /// The devices currently shown, in receipt order.
    pub fn devices(&self) -> (ds: &[DiscoveredDevice])
        ensures
            devices_view(ds@) == self.shown(),
    {
        self.devices.as_slice()
    }

    /// Turns a click on `device_id` into the `Connect` message for it, or
    /// `None` when no shown device has that id any more (a stale click
    /// never sends a `Connect`).
    pub fn select(&self, device_id: &str) -> (r: Option<TrayToCore>)
        ensures
            match r {
                Some(m) => m == (TrayToCore::Connect { device_id: m->device_id }) && m->device_id@ == device_id@
                    && exists|i: int| 0 <= i < self.shown().len() && self.shown()[i].id == device_id@,
                None => forall|i: int| 0 <= i < self.shown().len() ==> self.shown()[i].id != device_id@,
            },
    {
        let mut i: usize = 0;
        while i < self.devices.len()
            invariant
                i <= self.devices@.len(),
                forall|k: int| 0 <= k < i ==> self.devices@[k].id@ != device_id@,
            decreases self.devices@.len() - i,
        {
            if str_equal(self.devices[i].id.as_str(), device_id) {
                assert(self.shown()[i as int].id == device_id@);
                return Some(TrayToCore::Connect { device_id: self.devices[i].id.clone() });
            }
            i = i + 1;
        }
        None
    }
}

impl Default for DevicePicker {
    fn default() -> (p: Self)
        ensures
            p.shown() == Seq::<DeviceView>::empty(),
    {
        DevicePicker::new()
    }
}

} // verus!
