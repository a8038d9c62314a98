use opendisplay::transport::dial::{dial, select_preferred_transport, DiscoveredDevice, Dialer};
use opendisplay::transport::net::{IpAddress, SocketAddress};
use opendisplay::transport::{usb, wifi};

fn addr() -> SocketAddress {
    SocketAddress { ip: IpAddress::V4([192, 168, 1, 42]), port: 9000 }
}

fn wifi_device(id: &str) -> wifi::DiscoveredDevice {
    wifi::DiscoveredDevice { id: Some(id.to_string()), name: "Test Device".into(), address: addr(), pv: 3 }
}

fn usb_device(id: &str) -> usb::DiscoveredDevice {
    usb::DiscoveredDevice { id: id.to_string() }
}

#[derive(Default)]
struct RecordingDialer {
    wifi_calls: Vec<SocketAddress>,
    usb_calls: Vec<String>,
}

#[derive(Debug, PartialEq)]
enum FakeConnection {
    Wifi,
    Usb,
}

impl Dialer for RecordingDialer {
    type Connection = FakeConnection;

    fn dial_wifi(&mut self, address: SocketAddress) -> std::io::Result<Self::Connection> {
        self.wifi_calls.push(address);
        Ok(FakeConnection::Wifi)
    }

    fn dial_usb(&mut self, usb_id: &str) -> std::io::Result<Self::Connection> {
        self.usb_calls.push(usb_id.to_string());
        Ok(FakeConnection::Usb)
    }
}

#[test]
fn dialing_a_wifi_device_opens_a_direct_connection_to_its_address() {
    let device = DiscoveredDevice::Wifi(wifi_device("A"));
    let mut dialer = RecordingDialer::default();

    let conn = dial(&device, &mut dialer).unwrap();

    assert_eq!(conn, FakeConnection::Wifi);
    assert_eq!(dialer.wifi_calls, vec![addr()]);
    assert!(dialer.usb_calls.is_empty());
}

#[test]
fn dialing_a_usb_device_opens_a_connection_through_the_usbmuxd_tunnel() {
    let device = DiscoveredDevice::Usb(usb_device("00008030-ABC"));
    let mut dialer = RecordingDialer::default();

    let conn = dial(&device, &mut dialer).unwrap();

    assert_eq!(conn, FakeConnection::Usb);
    assert_eq!(dialer.usb_calls, vec!["00008030-ABC".to_string()]);
    assert!(dialer.wifi_calls.is_empty());
}

#[test]
fn selects_wifi_when_only_wifi_has_the_device() {
    let wifi_devices = vec![wifi_device("A")];
    let usb_devices = vec![];

    let selected = select_preferred_transport(&wifi_devices, &usb_devices, "A");

    assert_eq!(selected, Some(DiscoveredDevice::Wifi(wifi_device("A"))));
}

#[test]
fn selects_usb_when_only_usb_has_the_device() {
    let wifi_devices = vec![];
    let usb_devices = vec![usb_device("A")];

    let selected = select_preferred_transport(&wifi_devices, &usb_devices, "A");

    assert_eq!(selected, Some(DiscoveredDevice::Usb(usb_device("A"))));
}

#[test]
fn prefers_usb_when_the_same_device_id_is_available_on_both_transports() {
    let wifi_devices = vec![wifi_device("A")];
    let usb_devices = vec![usb_device("A")];

    let selected = select_preferred_transport(&wifi_devices, &usb_devices, "A");

    assert_eq!(selected, Some(DiscoveredDevice::Usb(usb_device("A"))));
}

#[test]
fn a_device_on_neither_transport_is_not_selected() {
    let wifi_devices = vec![wifi_device("A"), wifi::DiscoveredDevice { id: None, name: "B".into(), address: addr(), pv: 1 }];
    let usb_devices = vec![usb_device("C")];
    assert_eq!(select_preferred_transport(&wifi_devices, &usb_devices, "B"), None);
}
