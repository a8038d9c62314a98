use opendisplay::ipc::{from_line, to_line, CoreToTray, DiscoveredDevice, IpcError, SessionStats, Transport, TrayToCore};

fn number_text(value: f32) -> String {
    serde_json::to_string(&value).unwrap()
}

#[test]
fn core_to_tray_device_list_round_trips() {
    let msg = CoreToTray::DeviceList(vec![DiscoveredDevice {
        id: "00008030-ABC".into(),
        name: "Jose's iPad".into(),
        transport: Transport::Wifi,
    }]);

    let line = to_line(&msg);
    let decoded: CoreToTray = from_line(&line).expect("valid message decodes");
    assert_eq!(decoded, msg);
}

#[test]
fn core_to_tray_status_round_trips_with_all_fields_present() {
    let msg = CoreToTray::Status {
        device: Some("00008030-ABC".into()),
        transport: Some(Transport::Usb),
        connected: true,
        stats: Some(SessionStats { fps: number_text(60.0), bitrate_kbps: 8000 }),
    };

    let line = to_line(&msg);
    let decoded: CoreToTray = from_line(&line).expect("valid message decodes");
    assert_eq!(decoded, msg);
}

#[test]
fn core_to_tray_status_round_trips_with_no_device_connected() {
    let msg = CoreToTray::Status { device: None, transport: None, connected: false, stats: None };

    let line = to_line(&msg);
    let decoded: CoreToTray = from_line(&line).expect("valid message decodes");
    assert_eq!(decoded, msg);
}

#[test]
fn core_to_tray_error_round_trips() {
    let msg = CoreToTray::Error { message: "driver not installed".into() };

    let line = to_line(&msg);
    let decoded: CoreToTray = from_line(&line).expect("valid message decodes");
    assert_eq!(decoded, msg);
}

#[test]
fn tray_to_core_connect_round_trips() {
    let msg = TrayToCore::Connect { device_id: "00008030-ABC".into() };

    let line = to_line(&msg);
    let decoded: TrayToCore = from_line(&line).expect("valid message decodes");
    assert_eq!(decoded, msg);
}

#[test]
fn tray_to_core_disconnect_round_trips() {
    let msg = TrayToCore::Disconnect;

    let line = to_line(&msg);
    let decoded: TrayToCore = from_line(&line).expect("valid message decodes");
    assert_eq!(decoded, msg);
}

#[test]
fn tray_to_core_open_log_folder_round_trips() {
    let msg = TrayToCore::OpenLogFolder;

    let line = to_line(&msg);
    let decoded: TrayToCore = from_line(&line).expect("valid message decodes");
    assert_eq!(decoded, msg);
}

#[test]
fn malformed_json_line_yields_an_explicit_error() {
    let result: Result<TrayToCore, IpcError> = from_line("not json at all");
    assert!(result.is_err());
}

#[test]
fn well_formed_but_unexpected_json_shape_yields_an_explicit_error() {
    let result: Result<TrayToCore, IpcError> = from_line(r#"{"unexpectedField": 42}"#);
    assert!(result.is_err());
}

#[test]
fn parsing_a_malformed_line_never_panics() {
    let result: Result<TrayToCore, IpcError> = from_line("{ this is not valid json");
    assert_eq!(result.unwrap_err(), IpcError::MalformedJson);
}

#[test]
fn lines_use_the_externally_tagged_json_shape() {
    assert_eq!(to_line(&TrayToCore::Disconnect), r#""Disconnect""#);
    assert_eq!(to_line(&TrayToCore::OpenLogFolder), r#""OpenLogFolder""#);
    assert_eq!(to_line(&TrayToCore::Connect { device_id: "A".into() }), r#"{"Connect":{"device_id":"A"}}"#);
    assert_eq!(
        to_line(&CoreToTray::DeviceList(vec![DiscoveredDevice { id: "i".into(), name: "n".into(), transport: Transport::Usb }])),
        r#"{"DeviceList":[{"id":"i","name":"n","transport":"Usb"}]}"#
    );
    assert_eq!(
        to_line(&CoreToTray::Status {
            device: None,
            transport: Some(Transport::Wifi),
            connected: true,
            stats: Some(SessionStats { fps: number_text(59.5), bitrate_kbps: 120 }),
        }),
        r#"{"Status":{"device":null,"transport":"Wifi","connected":true,"stats":{"fps":59.5,"bitrate_kbps":120}}}"#
    );
    assert_eq!(to_line(&CoreToTray::Error { message: "x\"y".into() }), r#"{"Error":{"message":"x\"y"}}"#);
}

#[test]
fn the_schema_accepts_every_shape_serde_accepts() {
    let unit_as_object: TrayToCore = from_line(r#"{"Disconnect":null}"#).unwrap();
    assert_eq!(unit_as_object, TrayToCore::Disconnect);
    let fields_as_array: TrayToCore = from_line(r#"{"Connect":["A"]}"#).unwrap();
    assert_eq!(fields_as_array, TrayToCore::Connect { device_id: "A".into() });
    let missing_options: CoreToTray = from_line(r#"{"Status":{"connected":false}}"#).unwrap();
    assert_eq!(missing_options, CoreToTray::Status { device: None, transport: None, connected: false, stats: None });
    let extra_keys: CoreToTray = from_line(r#"{"Error":{"message":"m","extra":1}}"#).unwrap();
    assert_eq!(extra_keys, CoreToTray::Error { message: "m".into() });
}

#[test]
fn each_kind_of_malformed_line_gets_its_error() {
    assert_eq!(from_line::<TrayToCore>("").unwrap_err(), IpcError::MalformedJson);
    assert_eq!(from_line::<TrayToCore>(r#""Reboot""#).unwrap_err(), IpcError::UnexpectedShape);
    assert_eq!(from_line::<TrayToCore>(r#"{"Connect":{}}"#).unwrap_err(), IpcError::UnexpectedShape);
    assert_eq!(from_line::<CoreToTray>(r#"{"Status":{"connected":"yes"}}"#).unwrap_err(), IpcError::UnexpectedShape);
    assert_eq!(
        from_line::<CoreToTray>(r#"{"Status":{"connected":true,"stats":{"fps":1,"bitrate_kbps":-1}}}"#).unwrap_err(),
        IpcError::UnexpectedShape
    );
}
