//! What the tray icon's menus hold and what a click on them means, and the
//! tray's state as the core's messages arrive. Showing the menus and the
//! icon is OS work outside this library.

use vstd::prelude::*;
use crate::ipc::{devices_view, CoreToTray, CoreToTrayView, DeviceView, DiscoveredDevice, TrayToCore};
use super::first_run::{FirstRunFlow, FirstRunState};
use super::ipc_client::ConnectOutcome;
use super::picker::DevicePicker;
use super::status::{status_for_connect_failure, status_for_message, TrayStatus};

verus! {

/// The menu command that opens the logs.
pub const ID_OPEN_LOGS: usize = 9001;

/// The menu command that quits the tray.
pub const ID_QUIT: usize = 9002;

/// The first-run menu command that launches the installer.
pub const ID_INSTALL: usize = 9003;

/// The first-run menu command that declines it.
pub const ID_NOT_NOW: usize = 9004;

/// The device menu: one entry per device, numbered from 1 in list order and
/// labelled with its name, then "Open Logs" and "Quit".
pub open spec fn spec_device_menu(devices: Seq<DeviceView>) -> Seq<(usize, Seq<char>)> {
    Seq::new(devices.len(), |i: int| ((i + 1) as usize, devices[i].name)) + seq![
        (ID_OPEN_LOGS, "Open Logs"@),
        (ID_QUIT, "Quit"@),
    ]
}

/// The device menu's entries for `devices`.
pub fn device_menu_items(devices: &[DiscoveredDevice]) -> (items: Vec<(usize, String)>)
    requires
        devices@.len() < usize::MAX,
    ensures
        items@.len() == devices@.len() + 2,
        forall|i: int| 0 <= i < items@.len() ==> (#[trigger] items@[i]).0 == spec_device_menu(devices_view(devices@))[i].0
            && items@[i].1@ == spec_device_menu(devices_view(devices@))[i].1,
{
    let mut items: Vec<(usize, String)> = Vec::new();
    let mut i: usize = 0;
    while i < devices.len()
        invariant
            i <= devices@.len() < usize::MAX,
            items@.len() == i,
            forall|k: int| 0 <= k < i ==> (#[trigger] items@[k]).0 == k + 1 && items@[k].1@ == devices@[k].name@,
        decreases devices@.len() - i,
    {
        items.push((i + 1, devices[i].name.clone()));
        i = i + 1;
    }
    items.push((ID_OPEN_LOGS, String::from_str("Open Logs")));
    items.push((ID_QUIT, String::from_str("Quit")));
    items
}

/// What a click on the device menu means.
#[derive(Debug, PartialEq, Eq)]
pub enum MenuChoice {
    OpenLogs,
    Quit,
    /// Connect to the device the clicked entry names.
    Send(TrayToCore),
    /// The menu closed without a command, or with one that names nothing.
    Nothing,
}

/// Interprets the command the device menu returned for `devices`: the two
/// fixed commands first, then a device's entry number, else nothing.
pub fn device_menu_choice(selected: Option<usize>, devices: &[DiscoveredDevice]) -> (c: MenuChoice)
    ensures
        match selected {
            Some(id) => if id == ID_OPEN_LOGS {
                c == MenuChoice::OpenLogs
            } else if id == ID_QUIT {
                c == MenuChoice::Quit
            } else if 1 <= id <= devices@.len() {
                c matches MenuChoice::Send(TrayToCore::Connect { device_id }) && device_id@ == devices@[id - 1].id@
            } else {
                c == MenuChoice::Nothing
            },
            None => c == MenuChoice::Nothing,
        },
{
    match selected {
        Some(id) => {
            if id == ID_OPEN_LOGS {
                MenuChoice::OpenLogs
            } else if id == ID_QUIT {
                MenuChoice::Quit
            } else if 1 <= id && id <= devices.len() {
                MenuChoice::Send(TrayToCore::Connect { device_id: devices[id - 1].id.clone() })
            } else {
                MenuChoice::Nothing
            }
        },
        None => MenuChoice::Nothing,
    }
}

/// The first-run menu's label for installing, by state.
pub open spec fn spec_install_label(state: FirstRunState) -> Seq<char> {
    match state {
        FirstRunState::OfferInstall => "Set up virtual display"@,
        FirstRunState::SetupIncompleteDeclined => "Set up virtual display (setup incomplete)"@,
    }
}

/// The first-run menu: the install entry, labelled by state, then "Not now".
pub fn first_run_menu_items(state: FirstRunState) -> (items: Vec<(usize, String)>)
    ensures
        items@.len() == 2,
        items@[0].0 == ID_INSTALL && items@[0].1@ == spec_install_label(state),
        items@[1].0 == ID_NOT_NOW && items@[1].1@ == "Not now"@,
{
    let label = match state {
        FirstRunState::OfferInstall => String::from_str("Set up virtual display"),
        FirstRunState::SetupIncompleteDeclined => String::from_str("Set up virtual display (setup incomplete)"),
    };
    let mut items: Vec<(usize, String)> = Vec::new();
    items.push((ID_INSTALL, label));
    items.push((ID_NOT_NOW, String::from_str("Not now")));
    items
}

/// What a click on the first-run menu means.
#[derive(Debug, Clone, Copy, PartialEq, Eq, Structural)]
pub enum FirstRunChoice {
    Install,
    NotNow,
    Nothing,
}

/// Interprets the command the first-run menu returned.
pub fn first_run_choice(selected: Option<usize>) -> (c: FirstRunChoice)
    ensures
        c == (if selected == Some(ID_INSTALL) {
            FirstRunChoice::Install
        } else if selected == Some(ID_NOT_NOW) {
            FirstRunChoice::NotNow
        } else {
            FirstRunChoice::Nothing
        }),
{
    match selected {
        Some(id) => {
            if id == ID_INSTALL {
                FirstRunChoice::Install
            } else if id == ID_NOT_NOW {
                FirstRunChoice::NotNow
            } else {
                FirstRunChoice::Nothing
            }
        },
        None => FirstRunChoice::Nothing,
    }
}

/// The tray's state: the picker, the status shown, and the first-run flow.
pub struct TrayModel {
    pub picker: DevicePicker,
    pub status: Option<TrayStatus>,
    pub first_run: FirstRunFlow,
}

impl TrayModel {
    pub fn new() -> (m: Self)
        ensures
            m.picker.shown() == Seq::<DeviceView>::empty(),
            m.status is None,
            m.first_run.shown() is None,
    {
        TrayModel { picker: DevicePicker::new(), status: None, first_run: FirstRunFlow::new() }
    }

    /// Applies one core message to the picker, the first-run flow and the
    /// status (which only a message that calls for a status changes), and
    /// returns the status to render, if any has been decided yet.
    pub fn on_core_message(&mut self, msg: &CoreToTray) -> (render: Option<TrayStatus>)
        ensures
            final(self).status == (match status_for_message_spec(*msg) {
                Some(s) => Some(s),
                None => old(self).status,
            }),
            render == final(self).status,
            match msg@ {
                CoreToTrayView::DeviceList(ds) => final(self).picker.shown() == ds,
                _ => final(self).picker.shown() == old(self).picker.shown(),
            },
            driver_missing(*msg) ==> final(self).first_run.shown() == Some(FirstRunState::OfferInstall),
            !driver_missing(*msg) ==> final(self).first_run.shown() == old(self).first_run.shown(),
    {
        self.picker.apply(msg);
        self.first_run.apply(msg);
        match status_for_message(msg) {
            Some(s) => {
                self.status = Some(s);
            },
            None => {},
        }
        match &self.status {
            Some(s) => Some(s.clone()),
            None => None,
        }
    }

    /// Records that the core became unreachable: the status becomes "core
    /// not running", which is returned to render.
    pub fn on_core_unreachable(&mut self) -> (render: Option<TrayStatus>)
        ensures
            final(self).status == Some(TrayStatus::CoreNotRunning),
            render == Some(TrayStatus::CoreNotRunning),
    {
        let outcome: ConnectOutcome<()> = ConnectOutcome::CoreNotRunning;
        match status_for_connect_failure(&outcome) {
            Some(s) => {
                self.status = Some(s.clone());
                Some(s)
            },
            None => None,
        }
    }
}

/// Whether a core message reports the virtual-display driver missing.
pub open spec fn driver_missing(msg: CoreToTray) -> bool {
    match msg {
        CoreToTray::Error { message } => message@ == super::first_run::DRIVER_MISSING_MESSAGE@,
        _ => false,
    }
}

/// The status a core message calls for, as [`status_for_message`] decides.
pub open spec fn status_for_message_spec(msg: CoreToTray) -> Option<TrayStatus> {
    match msg {
        CoreToTray::DeviceList(_) => None,
        CoreToTray::Status { device, transport, connected, stats } => if connected {
            Some(TrayStatus::Connected { device, transport, stats })
        } else {
            Some(TrayStatus::Disconnected)
        },
        CoreToTray::Error { message } => if message@ == super::status::NOT_ELEVATED_MESSAGE@ {
            Some(TrayStatus::NotElevated)
        } else {
            None
        },
    }
}

} // verus!
