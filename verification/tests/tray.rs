use opendisplay::ipc::{to_line, CoreToTray, DiscoveredDevice, SessionStats, Transport, TrayToCore};
use opendisplay::tray::first_run::{accept, FirstRunFlow, FirstRunState, InstallerLauncher, DRIVER_MISSING_MESSAGE};
use opendisplay::tray::ipc_client::{connect, message_from_line, ConnectOutcome, PipeConnector, PIPE_NAME};
use opendisplay::tray::menu::{
    device_menu_choice, device_menu_items, first_run_choice, first_run_menu_items, FirstRunChoice, MenuChoice, TrayModel,
    ID_INSTALL, ID_NOT_NOW, ID_OPEN_LOGS, ID_QUIT,
};
use opendisplay::tray::open_logs::{decide, perform, FolderOpener, IpcRequester, OpenLogsAction};
use opendisplay::tray::picker::DevicePicker;
use opendisplay::tray::status::{
    status_for_connect_failure, status_for_message, tooltip_text, TrayStatus, NOT_ELEVATED_MESSAGE,
};
use std::cell::RefCell;
use std::io::Cursor;

struct FailingConnector;
impl PipeConnector for FailingConnector {
    type Stream = Cursor<Vec<u8>>;
    fn connect(&mut self, _pipe_name: &str) -> std::io::Result<Self::Stream> {
        Err(std::io::Error::new(std::io::ErrorKind::NotFound, "no such pipe"))
    }
}

struct SucceedingConnector;
impl PipeConnector for SucceedingConnector {
    type Stream = Cursor<Vec<u8>>;
    fn connect(&mut self, _pipe_name: &str) -> std::io::Result<Self::Stream> {
        Ok(Cursor::new(Vec::new()))
    }
}

#[test]
fn a_missing_pipe_yields_an_explicit_core_not_running_state() {
    let outcome = connect(&mut FailingConnector, PIPE_NAME);
    assert!(
        matches!(outcome, ConnectOutcome::CoreNotRunning),
        "a missing/unreadable pipe must classify as CoreNotRunning, not silently succeed"
    );
}

#[test]
fn a_successful_connect_surfaces_the_stream_as_connected() {
    let outcome = connect(&mut SucceedingConnector, PIPE_NAME);
    assert!(matches!(outcome, ConnectOutcome::Connected(_)));
}

#[test]
fn a_device_list_line_with_its_newline_parses_as_the_message() {
    let msg = CoreToTray::DeviceList(vec![DiscoveredDevice {
        id: "00008030-ABC".into(),
        name: "Jose's iPad".into(),
        transport: Transport::Wifi,
    }]);
    let line = format!("{}\r\n", to_line(&msg));
    assert_eq!(message_from_line(&line).unwrap(), msg);
}

#[test]
fn a_malformed_pipe_line_is_an_error_not_a_panic() {
    assert!(message_from_line("not json at all\n").is_err());
}

#[test]
fn the_tray_and_core_name_the_same_pipe() {
    assert_eq!(PIPE_NAME, opendisplay::ipc_server::PIPE_NAME);
    assert_eq!(PIPE_NAME, r"\\.\pipe\opendisplay-core");
}

#[test]
fn a_core_not_running_outcome_yields_core_not_running_status() {
    let outcome: ConnectOutcome<()> = ConnectOutcome::CoreNotRunning;
    assert_eq!(status_for_connect_failure(&outcome), Some(TrayStatus::CoreNotRunning));
}

#[test]
fn a_connected_outcome_yields_no_status_change() {
    let outcome = ConnectOutcome::Connected(());
    assert_eq!(status_for_connect_failure(&outcome), None);
}

#[test]
fn a_device_list_message_yields_no_status_change() {
    assert_eq!(status_for_message(&CoreToTray::DeviceList(vec![])), None);
}

#[test]
fn a_connected_status_message_yields_connected_with_its_fields() {
    let msg = CoreToTray::Status {
        device: Some("iPad".to_string()),
        transport: Some(Transport::Wifi),
        connected: true,
        stats: None,
    };
    assert_eq!(
        status_for_message(&msg),
        Some(TrayStatus::Connected { device: Some("iPad".to_string()), transport: Some(Transport::Wifi), stats: None })
    );
}

#[test]
fn a_disconnected_status_message_yields_disconnected() {
    let msg = CoreToTray::Status { device: None, transport: None, connected: false, stats: None };
    assert_eq!(status_for_message(&msg), Some(TrayStatus::Disconnected));
}

#[test]
fn a_not_elevated_error_message_yields_not_elevated_status() {
    let msg = CoreToTray::Error { message: NOT_ELEVATED_MESSAGE.to_string() };
    assert_eq!(status_for_message(&msg), Some(TrayStatus::NotElevated));
}

#[test]
fn an_unrecognized_error_message_yields_no_status_change() {
    let msg = CoreToTray::Error { message: "something else".to_string() };
    assert_eq!(status_for_message(&msg), None);
}

#[test]
fn each_status_has_its_own_tooltip() {
    assert_eq!(tooltip_text(&TrayStatus::CoreNotRunning), "OpenDisplay: core not running");
    assert_eq!(tooltip_text(&TrayStatus::NotElevated), "OpenDisplay: not elevated \u{2014} setup incomplete");
    assert_eq!(tooltip_text(&TrayStatus::Disconnected), "OpenDisplay: no device connected");
    assert_eq!(
        tooltip_text(&TrayStatus::Connected { device: Some("iPad".into()), transport: None, stats: None }),
        "OpenDisplay: connected to iPad"
    );
    assert_eq!(
        tooltip_text(&TrayStatus::Connected {
            device: None,
            transport: Some(Transport::Usb),
            stats: Some(SessionStats { fps: "60.0".into(), bitrate_kbps: 1 })
        }),
        "OpenDisplay: connected"
    );
}

fn device(id: &str, name: &str) -> DiscoveredDevice {
    DiscoveredDevice { id: id.into(), name: name.into(), transport: Transport::Usb }
}

#[test]
fn the_picker_shows_the_latest_device_list_and_ignores_other_messages() {
    let mut picker = DevicePicker::new();
    assert!(picker.devices().is_empty());
    picker.apply(&CoreToTray::DeviceList(vec![device("A", "iPad")]));
    picker.apply(&CoreToTray::Error { message: "x".into() });
    assert_eq!(picker.devices(), &[device("A", "iPad")]);
    picker.apply(&CoreToTray::DeviceList(vec![device("B", "iPhone")]));
    assert_eq!(picker.devices(), &[device("B", "iPhone")]);
}

#[test]
fn selecting_a_listed_device_connects_to_it_and_a_stale_click_sends_nothing() {
    let mut picker = DevicePicker::default();
    picker.apply(&CoreToTray::DeviceList(vec![device("A", "iPad")]));
    assert_eq!(picker.select("A"), Some(TrayToCore::Connect { device_id: "A".into() }));
    assert_eq!(picker.select("Z"), None);
}

#[test]
fn the_install_offer_appears_only_for_the_driver_missing_error() {
    let mut flow = FirstRunFlow::new();
    flow.apply(&CoreToTray::Error { message: "something else".into() });
    flow.apply(&CoreToTray::Status { device: None, transport: None, connected: false, stats: None });
    assert_eq!(flow.state(), None);
    flow.apply(&CoreToTray::Error { message: DRIVER_MISSING_MESSAGE.into() });
    assert_eq!(flow.state(), Some(FirstRunState::OfferInstall));
}

#[test]
fn declining_keeps_setup_incomplete_until_the_driver_is_reported_missing_again() {
    let mut flow = FirstRunFlow::default();
    flow.decline();
    assert_eq!(flow.state(), None);
    flow.apply(&CoreToTray::Error { message: DRIVER_MISSING_MESSAGE.into() });
    flow.decline();
    assert_eq!(flow.state(), Some(FirstRunState::SetupIncompleteDeclined));
    flow.apply(&CoreToTray::DeviceList(vec![]));
    assert_eq!(flow.state(), Some(FirstRunState::SetupIncompleteDeclined));
    flow.apply(&CoreToTray::Error { message: DRIVER_MISSING_MESSAGE.into() });
    assert_eq!(flow.state(), Some(FirstRunState::OfferInstall));
}

struct RecordingLauncher(RefCell<u32>);
impl InstallerLauncher for RecordingLauncher {
    fn launch(&mut self) -> std::io::Result<()> {
        *self.0.borrow_mut() += 1;
        Ok(())
    }
}

#[test]
fn accepting_launches_the_installer_once() {
    let mut launcher = RecordingLauncher(RefCell::new(0));
    accept(&mut launcher).unwrap();
    assert_eq!(*launcher.0.borrow(), 1);
}

struct RecordingRequester {
    called: RefCell<bool>,
}
impl IpcRequester for RecordingRequester {
    fn request_open_log_folder(&mut self) -> std::io::Result<()> {
        *self.called.borrow_mut() = true;
        Ok(())
    }
}

struct RecordingOpener {
    opened_path: RefCell<Option<String>>,
}
impl FolderOpener for RecordingOpener {
    fn open(&mut self, path: &str) -> std::io::Result<()> {
        *self.opened_path.borrow_mut() = Some(path.to_string());
        Ok(())
    }
}

fn the_log_dir() -> String {
    r"C:\Users\someone\AppData\Local\OpenDisplay\Logs".to_string()
}

#[test]
fn a_reachable_core_requests_open_log_folder_over_ipc() {
    let outcome: ConnectOutcome<Cursor<Vec<u8>>> = ConnectOutcome::Connected(Cursor::new(Vec::new()));

    let action = decide(&outcome, the_log_dir());

    assert_eq!(action, OpenLogsAction::RequestViaIpc);
}

#[test]
fn an_unreachable_core_falls_back_to_opening_the_folder_directly() {
    let outcome: ConnectOutcome<Cursor<Vec<u8>>> = ConnectOutcome::CoreNotRunning;

    let action = decide(&outcome, the_log_dir());

    assert_eq!(action, OpenLogsAction::OpenDirectly(the_log_dir()));
}

#[test]
fn the_ipc_path_and_the_fallback_path_resolve_to_the_same_folder() {
    let outcome: ConnectOutcome<Cursor<Vec<u8>>> = ConnectOutcome::CoreNotRunning;

    let action = decide(&outcome, the_log_dir());

    match action {
        OpenLogsAction::OpenDirectly(path) => assert_eq!(path, the_log_dir()),
        OpenLogsAction::RequestViaIpc => panic!("expected the fallback path"),
    }
}

#[test]
fn perform_dispatches_the_ipc_request_without_touching_the_folder_opener() {
    let mut requester = RecordingRequester { called: RefCell::new(false) };
    let mut opener = RecordingOpener { opened_path: RefCell::new(None) };

    perform(&OpenLogsAction::RequestViaIpc, &mut requester, &mut opener).expect("perform succeeds");

    assert!(*requester.called.borrow(), "the IPC requester must be called");
    assert!(opener.opened_path.borrow().is_none(), "the folder opener must not be called");
}

#[test]
fn perform_dispatches_the_direct_open_without_touching_the_ipc_requester() {
    let mut requester = RecordingRequester { called: RefCell::new(false) };
    let mut opener = RecordingOpener { opened_path: RefCell::new(None) };
    let dir = the_log_dir();

    perform(&OpenLogsAction::OpenDirectly(dir.clone()), &mut requester, &mut opener).expect("perform succeeds");

    assert!(!*requester.called.borrow(), "the IPC requester must not be called");
    assert_eq!(*opener.opened_path.borrow(), Some(dir));
}

#[test]
fn the_device_menu_lists_devices_then_logs_and_quit() {
    let devices = vec![device("A", "iPad"), device("B", "iPhone")];
    assert_eq!(
        device_menu_items(&devices),
        vec![
            (1, "iPad".to_string()),
            (2, "iPhone".to_string()),
            (ID_OPEN_LOGS, "Open Logs".to_string()),
            (ID_QUIT, "Quit".to_string())
        ]
    );
}

#[test]
fn a_device_menu_click_means_its_entry() {
    let devices = vec![device("A", "iPad"), device("B", "iPhone")];
    assert_eq!(device_menu_choice(Some(ID_OPEN_LOGS), &devices), MenuChoice::OpenLogs);
    assert_eq!(device_menu_choice(Some(ID_QUIT), &devices), MenuChoice::Quit);
    assert_eq!(
        device_menu_choice(Some(2), &devices),
        MenuChoice::Send(TrayToCore::Connect { device_id: "B".into() })
    );
    assert_eq!(device_menu_choice(Some(3), &devices), MenuChoice::Nothing);
    assert_eq!(device_menu_choice(Some(0), &devices), MenuChoice::Nothing);
    assert_eq!(device_menu_choice(None, &devices), MenuChoice::Nothing);
}

#[test]
fn the_first_run_menu_offers_install_or_not_now() {
    assert_eq!(
        first_run_menu_items(FirstRunState::OfferInstall),
        vec![(ID_INSTALL, "Set up virtual display".to_string()), (ID_NOT_NOW, "Not now".to_string())]
    );
    assert_eq!(
        first_run_menu_items(FirstRunState::SetupIncompleteDeclined)[0].1,
        "Set up virtual display (setup incomplete)"
    );
    assert_eq!(first_run_choice(Some(ID_INSTALL)), FirstRunChoice::Install);
    assert_eq!(first_run_choice(Some(ID_NOT_NOW)), FirstRunChoice::NotNow);
    assert_eq!(first_run_choice(Some(ID_QUIT)), FirstRunChoice::Nothing);
    assert_eq!(first_run_choice(None), FirstRunChoice::Nothing);
}

#[test]
fn the_tray_model_keeps_the_last_decided_status() {
    let mut model = TrayModel::new();
    assert_eq!(model.on_core_message(&CoreToTray::DeviceList(vec![device("A", "iPad")])), None);
    assert_eq!(model.picker.devices().len(), 1);
    let shown = model.on_core_message(&CoreToTray::Status { device: None, transport: None, connected: false, stats: None });
    assert_eq!(shown, Some(TrayStatus::Disconnected));
    let shown = model.on_core_message(&CoreToTray::Error { message: "unrelated".into() });
    assert_eq!(shown, Some(TrayStatus::Disconnected));
    assert_eq!(model.on_core_unreachable(), Some(TrayStatus::CoreNotRunning));
    assert_eq!(model.status, Some(TrayStatus::CoreNotRunning));
}
