use opendisplay::ipc::{to_line, CoreToTray, Transport as IpcTransport, TrayToCore};
use opendisplay::ipc_server::{build_device_list, build_status, handle_incoming_line, Effect, IpcServer, ServerAction};
use opendisplay::session_state::SessionState;
use opendisplay::transport::net::{IpAddress, SocketAddress};
use opendisplay::transport::{usb, wifi};

#[test]
fn a_connect_line_yields_a_connect_action() {
    let line = to_line(&TrayToCore::Connect { device_id: "00008030-ABC".into() });
    assert_eq!(handle_incoming_line(&line), ServerAction::Connect { device_id: "00008030-ABC".into() });
}

#[test]
fn a_disconnect_line_yields_a_disconnect_action() {
    let line = to_line(&TrayToCore::Disconnect);
    assert_eq!(handle_incoming_line(&line), ServerAction::Disconnect);
}

#[test]
fn an_open_log_folder_line_yields_an_open_log_folder_action() {
    let line = to_line(&TrayToCore::OpenLogFolder);
    assert_eq!(handle_incoming_line(&line), ServerAction::OpenLogFolder);
}

#[test]
fn a_malformed_line_is_rejected_not_acted_on() {
    let action = handle_incoming_line("not json at all");
    assert_eq!(action, ServerAction::RejectedMalformed { raw_line: "not json at all".to_string() });
}

#[test]
fn a_well_formed_but_unexpected_shape_is_rejected_not_acted_on() {
    let action = handle_incoming_line(r#"{"unexpectedField": 42}"#);
    assert!(matches!(action, ServerAction::RejectedMalformed { .. }));
}

#[test]
fn applying_connect_sets_the_current_device_and_requests_a_dial() {
    let mut server = IpcServer::new();

    let effects = server.apply(ServerAction::Connect { device_id: "A".into() });

    assert_eq!(effects, vec![Effect::DialDevice { device_id: "A".into() }]);
    assert_eq!(server.current_device_id, Some("A".to_string()));
}

#[test]
fn applying_disconnect_clears_the_current_device_and_requests_teardown() {
    let mut server = IpcServer::new();
    server.apply(ServerAction::Connect { device_id: "A".into() });

    let effects = server.apply(ServerAction::Disconnect);

    assert_eq!(effects, vec![Effect::TeardownSession]);
    assert_eq!(server.current_device_id, None);
}

#[test]
fn applying_open_log_folder_requests_it_without_changing_the_current_device() {
    let mut server = IpcServer::new();
    server.apply(ServerAction::Connect { device_id: "A".into() });

    let effects = server.apply(ServerAction::OpenLogFolder);

    assert_eq!(effects, vec![Effect::OpenLogFolder]);
    assert_eq!(server.current_device_id, Some("A".to_string()));
}

#[test]
fn applying_a_rejected_malformed_action_only_logs_never_dials_or_tears_down() {
    let mut server = IpcServer::new();

    let effects = server.apply(ServerAction::RejectedMalformed { raw_line: "junk".into() });

    assert_eq!(effects, vec![Effect::LogRejectedMessage { raw_line: "junk".into() }]);
    assert_eq!(server.current_device_id, None, "a malformed message must never be acted on");
}

fn addr(last: u8) -> SocketAddress {
    SocketAddress { ip: IpAddress::V4([192, 168, 1, last]), port: 9000 }
}

#[test]
fn build_device_list_merges_usb_and_wifi_devices_with_correct_transport_tags() {
    let wifi_devices = vec![wifi::DiscoveredDevice {
        id: Some("W1".into()),
        name: "Jose's iPad".into(),
        address: addr(42),
        pv: 3,
    }];
    let usb_devices = vec![usb::DiscoveredDevice { id: "U1".into() }];

    let list = build_device_list(&wifi_devices, &usb_devices);

    match list {
        CoreToTray::DeviceList(devices) => {
            assert_eq!(devices.len(), 2);
            assert!(devices.iter().any(|d| d.id == "U1" && d.transport == IpcTransport::Usb));
            assert!(devices
                .iter()
                .any(|d| d.id == "W1" && d.name == "Jose's iPad" && d.transport == IpcTransport::Wifi));
        }
        other => panic!("expected DeviceList, got {other:?}"),
    }
}

#[test]
fn build_device_list_excludes_a_wifi_device_with_no_id() {
    let wifi_devices = vec![wifi::DiscoveredDevice { id: None, name: "Old iPhone".into(), address: addr(50), pv: 1 }];

    let list = build_device_list(&wifi_devices, &[]);

    match list {
        CoreToTray::DeviceList(devices) => assert!(devices.is_empty()),
        other => panic!("expected DeviceList, got {other:?}"),
    }
}

#[test]
fn the_device_list_puts_usb_devices_first_named_by_their_id() {
    let wifi_devices = vec![wifi::DiscoveredDevice { id: Some("W".into()), name: "Pad".into(), address: addr(1), pv: 3 }];
    let usb_devices = vec![usb::DiscoveredDevice { id: "U".into() }];
    match build_device_list(&wifi_devices, &usb_devices) {
        CoreToTray::DeviceList(devices) => {
            assert_eq!(devices[0].id, "U");
            assert_eq!(devices[0].name, "U");
            assert_eq!(devices[1].id, "W");
        }
        other => panic!("expected DeviceList, got {other:?}"),
    }
}

#[test]
fn the_status_reports_the_target_and_whether_it_is_connected() {
    let target = Some("A".to_string());
    assert_eq!(
        build_status(&target, Some(SessionState::Connected)),
        CoreToTray::Status { device: Some("A".into()), transport: None, connected: true, stats: None }
    );
    assert_eq!(
        build_status(&None, Some(SessionState::Paused)),
        CoreToTray::Status { device: None, transport: None, connected: false, stats: None }
    );
    assert_eq!(
        build_status(&None, None),
        CoreToTray::Status { device: None, transport: None, connected: false, stats: None }
    );
}

#[test]
fn a_rejected_line_keeps_the_current_target() {
    let mut server = IpcServer::default();
    server.apply(handle_incoming_line(&to_line(&TrayToCore::Connect { device_id: "B".into() })));
    let effects = server.apply(handle_incoming_line("{\"Connect\":{\"device_id\":7}}"));
    assert_eq!(effects, vec![Effect::LogRejectedMessage { raw_line: "{\"Connect\":{\"device_id\":7}}".into() }]);
    assert_eq!(server.current_device_id, Some("B".to_string()));
}
