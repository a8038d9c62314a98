//! Dials a discovered device: directly over TCP for WiFi, through the
//! usbmuxd tunnel for USB, preferring USB when both reach the same device.
//!
//! The socket connect itself sits behind [`Dialer`]; the transport choice is
//! verified logic.

use vstd::prelude::*;
use super::net::SocketAddress;
use super::{usb, wifi};
use crate::text::str_equal;

verus! {

/// A device reachable over exactly one transport, as passed to [`dial`].
#[derive(Debug, PartialEq, Eq)]
pub enum DiscoveredDevice {
    Wifi(wifi::DiscoveredDevice),
    Usb(usb::DiscoveredDevice),
}

/// Opening the actual connection. `Connection` is generic so that a test can
/// use a lightweight marker type in place of a socket.
pub trait Dialer {
    type Connection;

    /// Whether dialing `address` directly may give `r`. A dialer that says
    /// no more allows every result.
    closed spec fn may_dial_wifi(&self, address: SocketAddress, r: Result<Self::Connection, std::io::Error>) -> bool {
        true
    }

    /// Whether dialing the USB device `usb_id` may give `r`. A dialer that
    /// says no more allows every result.
    closed spec fn may_dial_usb(&self, usb_id: Seq<char>, r: Result<Self::Connection, std::io::Error>) -> bool {
        true
    }

    /// Whether this dialer keeps the record [`Dialer::dials`]. One that does
    /// not keeps none.
    closed spec fn keeps_record(&self) -> bool {
        false
    }

    /// Every dial so far, with its target and result, in order, where the
    /// record is kept.
    closed spec fn dials(&self) -> Seq<(DialTarget, Result<Self::Connection, std::io::Error>)> {
        Seq::empty()
    }

    /// Opens a direct TCP connection to `address` (WiFi path).
    fn dial_wifi(&mut self, address: SocketAddress) -> (r: Result<Self::Connection, std::io::Error>)
        ensures
            old(self).may_dial_wifi(address, r),
            final(self).keeps_record() == old(self).keeps_record(),
            old(self).keeps_record() ==> final(self).dials() == old(self).dials().push((DialTarget::Wifi(address), r)),
    ;

    /// Opens a connection through the usbmuxd tunnel to the device
    /// identified by `usb_id` (USB path).
    fn dial_usb(&mut self, usb_id: &str) -> (r: Result<Self::Connection, std::io::Error>)
        ensures
            old(self).may_dial_usb(usb_id@, r),
            final(self).keeps_record() == old(self).keeps_record(),
            old(self).keeps_record() ==> final(self).dials() == old(self).dials().push((DialTarget::Usb(usb_id@), r)),
    ;
}

/// Where one dial went: a WiFi address, or a USB device id.
pub ghost enum DialTarget {
    Wifi(SocketAddress),
    Usb(Seq<char>),
}

/// The target a device is dialed at: its advertised address over WiFi, its
/// id over USB.
pub open spec fn dial_target(device: &DiscoveredDevice) -> DialTarget {
    match device {
        DiscoveredDevice::Wifi(w) => DialTarget::Wifi(w.address),
        DiscoveredDevice::Usb(u) => DialTarget::Usb(u.id@),
    }
}

/// Dials `device` once using `dialer`: a WiFi device dials its advertised
/// address directly, a USB device dials its id through the usbmuxd tunnel;
/// the result is that dial's.
pub fn dial<D: Dialer>(device: &DiscoveredDevice, dialer: &mut D) -> (r: Result<D::Connection, std::io::Error>)
    ensures
        match device {
            DiscoveredDevice::Wifi(w) => old(dialer).may_dial_wifi(w.address, r),
            DiscoveredDevice::Usb(u) => old(dialer).may_dial_usb(u.id@, r),
        },
        final(dialer).keeps_record() == old(dialer).keeps_record(),
        old(dialer).keeps_record() ==> final(dialer).dials() == old(dialer).dials().push((dial_target(device), r)),
{
    match device {
        DiscoveredDevice::Wifi(w) => dialer.dial_wifi(w.address),
        DiscoveredDevice::Usb(u) => dialer.dial_usb(u.id.as_str()),
    }
}

/// The index of the first USB device whose id is `target`.
pub open spec fn first_usb_match(usb: Seq<usb::DiscoveredDevice>, target: Seq<char>, i: int) -> bool {
    &&& 0 <= i < usb.len()
    &&& usb[i].id@ == target
    &&& forall|j: int| 0 <= j < i ==> usb[j].id@ != target
}

/// Whether a WiFi device advertises the id `target`.
pub open spec fn wifi_has_id(d: wifi::DiscoveredDevice, target: Seq<char>) -> bool {
    d.id matches Some(id) && id@ == target
}

/// The index of the first WiFi device whose id is `target`.
pub open spec fn first_wifi_match(wifi: Seq<wifi::DiscoveredDevice>, target: Seq<char>, i: int) -> bool {
    &&& 0 <= i < wifi.len()
    &&& wifi_has_id(wifi[i], target)
    &&& forall|j: int| 0 <= j < i ==> !wifi_has_id(#[trigger] wifi[j], target)
}

/// Given the devices discovered on each transport and a target device id,
/// picks which transport to dial for that device: USB when the device is
/// reachable over USB (lower latency over the cable), otherwise WiFi.
pub fn select_preferred_transport(
    wifi_devices: &[wifi::DiscoveredDevice],
    usb_devices: &[usb::DiscoveredDevice],
    target_id: &str,
) -> (r: Option<DiscoveredDevice>)
    ensures
        match r {
            Some(DiscoveredDevice::Usb(d)) => exists|i: int|
                first_usb_match(usb_devices@, target_id@, i) && d == usb_devices@[i],
            Some(DiscoveredDevice::Wifi(d)) => {
                &&& forall|i: int| 0 <= i < usb_devices@.len() ==> usb_devices@[i].id@ != target_id@
                &&& exists|i: int| first_wifi_match(wifi_devices@, target_id@, i) && d == wifi_devices@[i]
            },
            None => {
                &&& forall|i: int| 0 <= i < usb_devices@.len() ==> usb_devices@[i].id@ != target_id@
                &&& forall|i: int| 0 <= i < wifi_devices@.len()
                    ==> !wifi_has_id(#[trigger] wifi_devices@[i], target_id@)
            },
        },
{
    let mut i: usize = 0;
    while i < usb_devices.len()
        invariant
            i <= usb_devices@.len(),
            forall|j: int| 0 <= j < i ==> usb_devices@[j].id@ != target_id@,
        decreases usb_devices@.len() - i,
    {
        if str_equal(usb_devices[i].id.as_str(), target_id) {
            assert(first_usb_match(usb_devices@, target_id@, i as int));
            return Some(DiscoveredDevice::Usb(usb_devices[i].clone()));
        }
        i = i + 1;
    }
    let mut k: usize = 0;
    while k < wifi_devices.len()
        invariant
            k <= wifi_devices@.len(),
            forall|j: int| 0 <= j < usb_devices@.len() ==> usb_devices@[j].id@ != target_id@,
            forall|j: int| 0 <= j < k ==> !wifi_has_id(#[trigger] wifi_devices@[j], target_id@),
        decreases wifi_devices@.len() - k,
    {
        match &wifi_devices[k].id {
            Some(id) => {
                if str_equal(id.as_str(), target_id) {
                    assert(first_wifi_match(wifi_devices@, target_id@, k as int));
                    return Some(DiscoveredDevice::Wifi(wifi_devices[k].clone()));
                }
            },
            None => {},
        }
        k = k + 1;
    }
    None
}

} // verus!
