//! The elevated side of the tray <-> core privilege boundary: validation and
//! interpretation of incoming `TrayToCore` lines, the bookkeeping they drive,
//! and the `CoreToTray` messages built for the tray. The named pipe itself
//! is OS-bound and lives outside this library.

use vstd::prelude::*;
use crate::ipc::{clone_opt_string, devices_view, from_line, spec_from_line, CoreToTray, CoreToTrayView, DeviceView, DiscoveredDevice as IpcDevice, IpcError, Transport as IpcTransport, TrayToCore, TrayToCoreView};
use crate::session_state::SessionState;
use crate::transport::{usb, wifi};

verus! {

/// The named pipe the core listens on.
pub const PIPE_NAME: &'static str = "\\\\.\\pipe\\opendisplay-core";

/// What the server should do in response to one incoming line. Every line is
/// untrusted input, so a malformed line becomes `RejectedMalformed`, never an
/// action.
#[derive(Debug, PartialEq, Eq)]
pub enum ServerAction {
    Connect { device_id: String },
    Disconnect,
    OpenLogFolder,
    /// The line was malformed or an unexpected shape; it was rejected, not
    /// acted on.
    RejectedMalformed { raw_line: String },
}

/// The value a [`ServerAction`] carries, with its strings as character
/// sequences.
pub ghost enum ServerActionView {
    Connect { device_id: Seq<char> },
    Disconnect,
    OpenLogFolder,
    RejectedMalformed { raw_line: Seq<char> },
}

impl View for ServerAction {
    type V = ServerActionView;

    open spec fn view(&self) -> ServerActionView {
        match self {
            ServerAction::Connect { device_id } => ServerActionView::Connect { device_id: device_id@ },
            ServerAction::Disconnect => ServerActionView::Disconnect,
            ServerAction::OpenLogFolder => ServerActionView::OpenLogFolder,
            ServerAction::RejectedMalformed { raw_line } => ServerActionView::RejectedMalformed { raw_line: raw_line@ },
        }
    }
}

/// The action a line authorizes, given what reading it as a `TrayToCore`
/// message gave: the message's own action, or `RejectedMalformed` carrying
/// the raw line when it was malformed or of an unexpected shape.
pub open spec fn spec_action_for(parsed: Result<TrayToCoreView, IpcError>, raw_line: Seq<char>) -> ServerActionView {
    match parsed {
        Ok(TrayToCoreView::Connect { device_id }) => ServerActionView::Connect { device_id },
        Ok(TrayToCoreView::Disconnect) => ServerActionView::Disconnect,
        Ok(TrayToCoreView::OpenLogFolder) => ServerActionView::OpenLogFolder,
        Err(_) => ServerActionView::RejectedMalformed { raw_line },
    }
}

/// The action the raw line `raw_line` authorizes.
pub open spec fn spec_handle_incoming_line(raw_line: Seq<char>) -> ServerActionView {
    spec_action_for(spec_from_line::<TrayToCore>(raw_line), raw_line)
}

/// The action a line authorizes, given what reading it as a `TrayToCore`
/// message gave.
pub fn action_for(parsed: Result<TrayToCore, IpcError>, raw_line: &str) -> (a: ServerAction)
    ensures
        a@ == spec_action_for(
            match parsed {
                Ok(m) => Ok(m@),
                Err(e) => Err(e),
            },
            raw_line@,
        ),
{
    match parsed {
        Ok(TrayToCore::Connect { device_id }) => ServerAction::Connect { device_id },
        Ok(TrayToCore::Disconnect) => ServerAction::Disconnect,
        Ok(TrayToCore::OpenLogFolder) => ServerAction::OpenLogFolder,
        Err(_) => ServerAction::RejectedMalformed { raw_line: String::from_str(raw_line) },
    }
}

/// Parses one raw line into the action it authorizes. A line that fails to
/// parse as `TrayToCore` (malformed JSON, or well-formed JSON of an
/// unexpected shape) becomes `RejectedMalformed`, never a `Connect`,
/// `Disconnect` or `OpenLogFolder` action.
pub fn handle_incoming_line(raw_line: &str) -> (a: ServerAction)
    ensures
        a@ == spec_handle_incoming_line(raw_line@),
{
    let parsed = from_line::<TrayToCore>(raw_line);
    action_for(parsed, raw_line)
}

/// A side effect [`IpcServer::apply`] asks the runtime to carry out, kept as
/// data so the bookkeeping needs no live dial, session or log writer.
#[derive(Debug, PartialEq, Eq)]
pub enum Effect {
    /// Dial and hand off to the session state machine for this device.
    DialDevice { device_id: String },
    /// Tear down the current session.
    TeardownSession,
    /// Open the log folder.
    OpenLogFolder,
    /// Log the rejected line, never acted on beyond logging.
    LogRejectedMessage { raw_line: String },
}

/// The server's bookkeeping: which device, if any, is the current target.
/// Owns no I/O: `apply` only decides what should happen next.
pub struct IpcServer {
    pub current_device_id: Option<String>,
}

impl IpcServer {
    pub fn new() -> (s: Self)
        ensures
            s.current_device_id is None,
    {
        Self { current_device_id: None }
    }

    /// Applies one already-parsed action, updating the current target and
    /// returning the effects the runtime must carry out: `Connect` targets
    /// the device and asks for a dial, `Disconnect` clears the target and asks
    /// for a teardown, `OpenLogFolder` asks for the folder, and a rejected
    /// line is only logged, leaving the target as it was.
    pub fn apply(&mut self, action: ServerAction) -> (effects: Vec<Effect>)
        ensures
            effects@.len() == 1,
            match action {
                ServerAction::Connect { device_id } => {
                    &&& final(self).current_device_id == Some(device_id)
                    &&& effects@[0] == (Effect::DialDevice { device_id })
                },
                ServerAction::Disconnect => {
                    &&& final(self).current_device_id is None
                    &&& effects@[0] == Effect::TeardownSession
                },
                ServerAction::OpenLogFolder => {
                    &&& final(self).current_device_id == old(self).current_device_id
                    &&& effects@[0] == Effect::OpenLogFolder
                },
                ServerAction::RejectedMalformed { raw_line } => {
                    &&& final(self).current_device_id == old(self).current_device_id
                    &&& effects@[0] == (Effect::LogRejectedMessage { raw_line })
                },
            },
    {
        match action {
            ServerAction::Connect { device_id } => {
                self.current_device_id = Some(device_id.clone());
                vec![Effect::DialDevice { device_id }]
            },
            ServerAction::Disconnect => {
                self.current_device_id = None;
                vec![Effect::TeardownSession]
            },
            ServerAction::OpenLogFolder => vec![Effect::OpenLogFolder],
            ServerAction::RejectedMalformed { raw_line } => {
                vec![Effect::LogRejectedMessage { raw_line }]
            },
        }
    }
}

impl Default for IpcServer {
    fn default() -> (s: Self)
        ensures
            s.current_device_id is None,
    {
        Self::new()
    }
}

/// The picker entries the device list holds: every USB device (named by its
/// id), then every WiFi device that advertises an id, in discovery order. A
/// WiFi device without an id is left out: the tray has nothing to connect it
/// with.
pub open spec fn spec_device_entries(
    wifi_devices: Seq<wifi::DiscoveredDevice>,
    usb_devices: Seq<usb::DiscoveredDevice>,
) -> Seq<DeviceView> {
    usb_entries(usb_devices) + wifi_entries(wifi_devices)
}

/// The picker entries for the USB devices, each named by its id.
pub open spec fn usb_entries(usb_devices: Seq<usb::DiscoveredDevice>) -> Seq<DeviceView> {
    usb_devices.map_values(|d: usb::DiscoveredDevice| DeviceView { id: d.id@, name: d.id@, transport: IpcTransport::Usb })
}

/// The picker entries for the WiFi devices that advertise an id, in order.
pub open spec fn wifi_entries(wifi_devices: Seq<wifi::DiscoveredDevice>) -> Seq<DeviceView>
    decreases wifi_devices.len(),
{
    if wifi_devices.len() == 0 {
        seq![]
    } else {
        let last = wifi_devices.last();
        let rest = wifi_entries(wifi_devices.drop_last());
        match last.id {
            Some(id) => rest.push(DeviceView { id: id@, name: last.name@, transport: IpcTransport::Wifi }),
            None => rest,
        }
    }
}

/// How many of the WiFi devices advertise an id.
pub open spec fn wifi_ids_count(wifi_devices: Seq<wifi::DiscoveredDevice>) -> nat
    decreases wifi_devices.len(),
{
    if wifi_devices.len() == 0 {
        0
    } else {
        wifi_ids_count(wifi_devices.drop_last()) + if wifi_devices.last().id is Some { 1nat } else { 0nat }
    }
}

/// The picker entry a WiFi device with the id `id` gets.
pub open spec fn wifi_entry(d: wifi::DiscoveredDevice, id: String) -> DeviceView {
    DeviceView { id: id@, name: d.name@, transport: IpcTransport::Wifi }
}

proof fn lemma_wifi_entries(w: Seq<wifi::DiscoveredDevice>)
    ensures
        wifi_entries(w).len() == wifi_ids_count(w),
        forall|i: int|
            0 <= i < w.len() && (#[trigger] w[i]).id is Some ==> {
                &&& wifi_ids_count(w.take(i)) < wifi_ids_count(w)
                &&& wifi_entries(w)[wifi_ids_count(w.take(i)) as int] == wifi_entry(w[i], w[i].id->0)
            },
    decreases w.len(),
{
    if w.len() > 0 {
        let rest = w.drop_last();
        lemma_wifi_entries(rest);
        assert(w.take(w.len() - 1) =~= rest);
        assert forall|i: int| 0 <= i < w.len() && (#[trigger] w[i]).id is Some implies {
            &&& wifi_ids_count(w.take(i)) < wifi_ids_count(w)
            &&& wifi_entries(w)[wifi_ids_count(w.take(i)) as int] == wifi_entry(w[i], w[i].id->0)
        } by {
            if i < w.len() - 1 {
                assert(w[i] == rest[i]);
                assert(w.take(i) =~= rest.take(i));
            }
        }
    }
}

/// The device list names every discovered device exactly as it should: each
/// USB device first, in order, named by its id; then one entry for every
/// WiFi device that advertises an id, with that id and the device's name, in
/// the order the devices were found (the device at `i` comes after the
/// entries of the devices with an id before it); none for a device without
/// an id, and nothing else.
pub proof fn lemma_device_list_lists_every_device(
    wifi_devices: Seq<wifi::DiscoveredDevice>,
    usb_devices: Seq<usb::DiscoveredDevice>,
)
    ensures
        spec_device_entries(wifi_devices, usb_devices).len() == usb_devices.len() + wifi_ids_count(wifi_devices),
        forall|i: int|
            0 <= i < usb_devices.len() ==> #[trigger] spec_device_entries(wifi_devices, usb_devices)[i] == (DeviceView {
                id: usb_devices[i].id@,
                name: usb_devices[i].id@,
                transport: IpcTransport::Usb,
            }),
        forall|i: int|
            0 <= i < wifi_devices.len() && (#[trigger] wifi_devices[i]).id is Some ==> spec_device_entries(
                wifi_devices,
                usb_devices,
            )[usb_devices.len() + wifi_ids_count(wifi_devices.take(i)) as int] == wifi_entry(
                wifi_devices[i],
                wifi_devices[i].id->0,
            ),
{
    let entries = spec_device_entries(wifi_devices, usb_devices);
    let u = usb_entries(usb_devices);
    let e = wifi_entries(wifi_devices);
    lemma_wifi_entries(wifi_devices);
    assert(entries == u + e);
    assert forall|i: int| 0 <= i < wifi_devices.len() && (#[trigger] wifi_devices[i]).id is Some implies entries[usb_devices.len()
        + wifi_ids_count(wifi_devices.take(i)) as int] == wifi_entry(wifi_devices[i], wifi_devices[i].id->0) by {
        assert(entries[u.len() + wifi_ids_count(wifi_devices.take(i)) as int] == e[wifi_ids_count(wifi_devices.take(i)) as int]);
    }
}

/// Builds the `DeviceList` message from the currently discovered WiFi and
/// USB devices.
pub fn build_device_list(
    wifi_devices: &[wifi::DiscoveredDevice],
    usb_devices: &[usb::DiscoveredDevice],
) -> (msg: CoreToTray)
    ensures
        msg@ == CoreToTrayView::DeviceList(spec_device_entries(wifi_devices@, usb_devices@)),
        msg@ matches CoreToTrayView::DeviceList(entries) && entries.len() == usb_devices@.len() + wifi_ids_count(
            wifi_devices@,
        ),
{
    proof {
        lemma_device_list_lists_every_device(wifi_devices@, usb_devices@);
    }
    let mut devices: Vec<IpcDevice> = Vec::new();
    let mut i: usize = 0;
    while i < usb_devices.len()
        invariant
            i <= usb_devices@.len(),
            devices_view(devices@) == usb_entries(usb_devices@.take(i as int)),
        decreases usb_devices@.len() - i,
    {
        let ghost before = devices@;
        devices.push(IpcDevice {
            id: usb_devices[i].id.clone(),
            name: usb_devices[i].id.clone(),
            transport: IpcTransport::Usb,
        });
        proof {
            crate::ipc::lemma_devices_view_push(before, devices@.last());
            assert(devices@ == before.push(devices@.last()));
            assert(usb_entries(usb_devices@.take(i + 1)) =~= usb_entries(usb_devices@.take(i as int)).push(
                DeviceView { id: usb_devices@[i as int].id@, name: usb_devices@[i as int].id@, transport: IpcTransport::Usb },
            ));
        }
        i = i + 1;
    }
    assert(usb_devices@.take(usb_devices@.len() as int) == usb_devices@);
    let ghost usb_part = devices_view(devices@);
    let mut k: usize = 0;
    while k < wifi_devices.len()
        invariant
            k <= wifi_devices@.len(),
            devices_view(devices@) == usb_part + wifi_entries(wifi_devices@.take(k as int)),
        decreases wifi_devices@.len() - k,
    {
        assert(wifi_devices@.take(k + 1).drop_last() == wifi_devices@.take(k as int));
        match &wifi_devices[k].id {
            Some(id) => {
                let ghost before = devices@;
                devices.push(IpcDevice {
                    id: id.clone(),
                    name: wifi_devices[k].name.clone(),
                    transport: IpcTransport::Wifi,
                });
                proof {
                    crate::ipc::lemma_devices_view_push(before, devices@.last());
                    assert(devices@ == before.push(devices@.last()));
                    assert(devices_view(devices@) =~= usb_part + wifi_entries(wifi_devices@.take(k + 1)));
                }
            },
            None => {},
        }
        k = k + 1;
    }
    assert(wifi_devices@.take(wifi_devices@.len() as int) == wifi_devices@);
    CoreToTray::DeviceList(devices)
}

/// Builds the `Status` message for the current session: the device selected
/// by the last `Connect`, if any, and whether the session is connected.
pub fn build_status(current_device_id: &Option<String>, state: Option<SessionState>) -> (msg: CoreToTray)
    ensures
        msg == (CoreToTray::Status {
            device: *current_device_id,
            transport: None,
            connected: state == Some(SessionState::Connected),
            stats: None,
        }),
{
    CoreToTray::Status {
        device: clone_opt_string(current_device_id),
        transport: None,
        connected: match state {
            Some(SessionState::Connected) => true,
            _ => false,
        },
        stats: None,
    }
}

/// The action a message authorizes.
pub open spec fn action_of(m: TrayToCoreView) -> ServerActionView {
    match m {
        TrayToCoreView::Connect { device_id } => ServerActionView::Connect { device_id },
        TrayToCoreView::Disconnect => ServerActionView::Disconnect,
        TrayToCoreView::OpenLogFolder => ServerActionView::OpenLogFolder,
    }
}

/// A line that reads as a message, such as any line the tray writes with
/// [`crate::ipc::to_line`], authorizes exactly that message's action.
pub proof fn lemma_message_line_yields_its_action(raw_line: Seq<char>, m: TrayToCoreView)
    requires
        spec_from_line::<TrayToCore>(raw_line) == Ok::<TrayToCoreView, IpcError>(m),
    ensures
        spec_handle_incoming_line(raw_line) == action_of(m),
{
}

/// A line that does not read as a `TrayToCore` message, malformed JSON or
/// an unexpected shape, is rejected with the line itself, never turned into
/// an action.
pub proof fn lemma_malformed_line_is_rejected(raw_line: Seq<char>)
    requires
        spec_from_line::<TrayToCore>(raw_line) is Err,
    ensures
        spec_handle_incoming_line(raw_line) == (ServerActionView::RejectedMalformed { raw_line }),
{
}

} // verus!
