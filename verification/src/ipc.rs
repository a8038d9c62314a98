//! The tray <-> core local IPC message schema, exchanged as newline-delimited
//! JSON over a named pipe. Purely local; never mixed with the network wire
//! protocol.
//!
//! A message's JSON shape is serde's externally tagged form: a unit variant
//! is its name as a string, any other variant an object with the variant's
//! name as its only key; a struct is an object keyed by field names (unknown
//! keys ignored, a missing optional field read as absent) or an array of its
//! fields in order.

use vstd::prelude::*;
use crate::json::{field, keys_distinct, number_prints_back, object_view, parse_json, reads_back, render_json, spec_field, decimal_text, json_text_parse, json_text_render, u32_text, Json, JsonValue, MAX_JSON_DEPTH};
use crate::text::str_equal;
use crate::transport::wifi::{parse_u32, spec_parse_u32};

verus! {

/// Which transport a device is reachable/connected over.
#[derive(Debug, Clone, Copy, PartialEq, Eq, Structural)]
pub enum Transport {
    Wifi,
    Usb,
}

/// A device the core has discovered (over WiFi and/or USB), as shown to the
/// tray's device picker.
#[derive(Debug, PartialEq, Eq)]
pub struct DiscoveredDevice {
    pub id: String,
    pub name: String,
    pub transport: Transport,
}

/// The value a [`DiscoveredDevice`] carries.
pub ghost struct DeviceView {
    pub id: Seq<char>,
    pub name: Seq<char>,
    pub transport: Transport,
}

impl View for DiscoveredDevice {
    type V = DeviceView;

    open spec fn view(&self) -> DeviceView {
        DeviceView { id: self.id@, name: self.name@, transport: self.transport }
    }
}

impl Clone for DiscoveredDevice {
    fn clone(&self) -> (r: Self)
        ensures
            r == *self,
    {
        DiscoveredDevice { id: self.id.clone(), name: self.name.clone(), transport: self.transport }
    }
}

/// Live session statistics shown in the tray's status view. The frame rate
/// is kept as the JSON number text of its value (a float).
#[derive(Debug, PartialEq, Eq)]
pub struct SessionStats {
    pub fps: String,
    pub bitrate_kbps: u32,
}

/// The value a [`SessionStats`] carries.
pub ghost struct StatsView {
    pub fps: Seq<char>,
    pub bitrate_kbps: u32,
}

impl View for SessionStats {
    type V = StatsView;

    open spec fn view(&self) -> StatsView {
        StatsView { fps: self.fps@, bitrate_kbps: self.bitrate_kbps }
    }
}

impl Clone for SessionStats {
    fn clone(&self) -> (r: Self)
        ensures
            r == *self,
    {
        SessionStats { fps: self.fps.clone(), bitrate_kbps: self.bitrate_kbps }
    }
}

/// Messages the core emits to the tray.
#[derive(Debug, PartialEq, Eq)]
pub enum CoreToTray {
    DeviceList(Vec<DiscoveredDevice>),
    Status {
        device: Option<String>,
        transport: Option<Transport>,
        connected: bool,
        stats: Option<SessionStats>,
    },
    Error { message: String },
}

/// The value a [`CoreToTray`] message carries.
pub ghost enum CoreToTrayView {
    DeviceList(Seq<DeviceView>),
    Status {
        device: Option<Seq<char>>,
        transport: Option<Transport>,
        connected: bool,
        stats: Option<StatsView>,
    },
    Error { message: Seq<char> },
}

/// The characters of an optional string.
pub open spec fn opt_str_view(s: Option<String>) -> Option<Seq<char>> {
    match s {
        Some(v) => Some(v@),
        None => None,
    }
}

/// The value of optional statistics.
pub open spec fn opt_stats_view(s: Option<SessionStats>) -> Option<StatsView> {
    match s {
        Some(v) => Some(v@),
        None => None,
    }
}

/// The values of a list of devices.
pub open spec fn devices_view(devices: Seq<DiscoveredDevice>) -> Seq<DeviceView> {
    devices.map_values(|d: DiscoveredDevice| d@)
}

/// Viewing a list with one more device appends that device's value.
pub proof fn lemma_devices_view_push(devices: Seq<DiscoveredDevice>, d: DiscoveredDevice)
    ensures
        devices_view(devices.push(d)) == devices_view(devices).push(d@),
{
    assert(devices_view(devices.push(d)) =~= devices_view(devices).push(d@));
}

impl View for CoreToTray {
    type V = CoreToTrayView;

    open spec fn view(&self) -> CoreToTrayView {
        match self {
            CoreToTray::DeviceList(devices) => CoreToTrayView::DeviceList(devices_view(devices@)),
            CoreToTray::Status { device, transport, connected, stats } => CoreToTrayView::Status {
                device: opt_str_view(*device),
                transport: *transport,
                connected: *connected,
                stats: opt_stats_view(*stats),
            },
            CoreToTray::Error { message } => CoreToTrayView::Error { message: message@ },
        }
    }
}

/// A copy of an optional string.
pub fn clone_opt_string(s: &Option<String>) -> (r: Option<String>)
    ensures
        r == *s,
{
    match s {
        Some(v) => Some(v.clone()),
        None => None,
    }
}

/// A copy of a list of devices.
pub fn clone_devices(devices: &Vec<DiscoveredDevice>) -> (r: Vec<DiscoveredDevice>)
    ensures
        r@ == devices@,
{
    let mut r: Vec<DiscoveredDevice> = Vec::new();
    let mut i: usize = 0;
    while i < devices.len()
        invariant
            i <= devices@.len(),
            r@ == devices@.subrange(0, i as int),
        decreases devices@.len() - i,
    {
        r.push(devices[i].clone());
        assert(devices@.subrange(0, i + 1) == devices@.subrange(0, i as int).push(devices@[i as int]));
        i = i + 1;
    }
    assert(devices@.subrange(0, devices@.len() as int) == devices@);
    r
}

impl Clone for CoreToTray {
    fn clone(&self) -> (r: Self)
        ensures
            r@ == self@,
    {
        match self {
            CoreToTray::DeviceList(devices) => CoreToTray::DeviceList(clone_devices(devices)),
            CoreToTray::Status { device, transport, connected, stats } => CoreToTray::Status {
                device: clone_opt_string(device),
                transport: *transport,
                connected: *connected,
                stats: match stats {
                    Some(s) => Some(s.clone()),
                    None => None,
                },
            },
            CoreToTray::Error { message } => CoreToTray::Error { message: message.clone() },
        }
    }
}

/// Messages the tray sends to the core. The core treats every value of this
/// type as untrusted input: it crosses the unprivileged -> elevated boundary.
#[derive(Debug, PartialEq, Eq)]
pub enum TrayToCore {
    Connect { device_id: String },
    Disconnect,
    OpenLogFolder,
}

/// The value a [`TrayToCore`] message carries.
pub ghost enum TrayToCoreView {
    Connect { device_id: Seq<char> },
    Disconnect,
    OpenLogFolder,
}

impl View for TrayToCore {
    type V = TrayToCoreView;

    open spec fn view(&self) -> TrayToCoreView {
        match self {
            TrayToCore::Connect { device_id } => TrayToCoreView::Connect { device_id: device_id@ },
            TrayToCore::Disconnect => TrayToCoreView::Disconnect,
            TrayToCore::OpenLogFolder => TrayToCoreView::OpenLogFolder,
        }
    }
}

impl Clone for TrayToCore {
    fn clone(&self) -> (r: Self)
        ensures
            r == *self,
    {
        match self {
            TrayToCore::Connect { device_id } => TrayToCore::Connect { device_id: device_id.clone() },
            TrayToCore::Disconnect => TrayToCore::Disconnect,
            TrayToCore::OpenLogFolder => TrayToCore::OpenLogFolder,
        }
    }
}

} // verus!

verus! {

// ---------------------------------------------------------------------------
// The JSON shapes of the messages.
// ---------------------------------------------------------------------------

/// The name of a unit variant written as a string, or as an object whose
/// only entry maps the name to `null`.
pub open spec fn unit_variant_name(j: Json) -> Option<Seq<char>> {
    match j {
        Json::Str(s) => Some(s),
        Json::Object(es) => if es.len() == 1 && es[0].1 == Json::Null {
            Some(es[0].0)
        } else {
            None
        },
        _ => None,
    }
}

/// The only entry of an object with exactly one entry.
pub open spec fn single_entry(j: Json) -> Option<(Seq<char>, Json)> {
    match j {
        Json::Object(es) => if es.len() == 1 {
            Some(es[0])
        } else {
            None
        },
        _ => None,
    }
}

/// Field `name` (at position `index` of `count`) of a struct written as an
/// object or as an array: `None` when `j` is neither (or an array of another
/// length), `Some(None)` when the object lacks the field.
pub open spec fn struct_field(j: Json, name: Seq<char>, index: int, count: int) -> Option<Option<Json>> {
    match j {
        Json::Object(es) => Some(spec_field(es, name)),
        Json::Array(items) => if items.len() == count {
            Some(Some(items[index]))
        } else {
            None
        },
        _ => None,
    }
}

/// A required string field.
pub open spec fn dec_string(f: Option<Option<Json>>) -> Option<Seq<char>> {
    match f {
        Some(Some(Json::Str(s))) => Some(s),
        _ => None,
    }
}

/// A required `u32` field: a number whose text is a decimal `u32`.
pub open spec fn dec_u32(f: Option<Option<Json>>) -> Option<u32> {
    match f {
        Some(Some(Json::Number(t))) => spec_parse_u32(t),
        _ => None,
    }
}

/// A required float field, kept as its number text.
pub open spec fn dec_number_text(f: Option<Option<Json>>) -> Option<Seq<char>> {
    match f {
        Some(Some(Json::Number(t))) => Some(t),
        _ => None,
    }
}

/// A required `bool` field.
pub open spec fn dec_bool(f: Option<Option<Json>>) -> Option<bool> {
    match f {
        Some(Some(Json::Bool(b))) => Some(b),
        _ => None,
    }
}

/// An optional string field: absent or `null` is `None`.
pub open spec fn dec_opt_string(f: Option<Option<Json>>) -> Option<Option<Seq<char>>> {
    match f {
        Some(None) | Some(Some(Json::Null)) => Some(None),
        Some(Some(Json::Str(s))) => Some(Some(s)),
        _ => None,
    }
}

/// A [`Transport`].
pub open spec fn dec_transport(j: Json) -> Option<Transport> {
    match unit_variant_name(j) {
        Some(name) => if name == "Wifi"@ {
            Some(Transport::Wifi)
        } else if name == "Usb"@ {
            Some(Transport::Usb)
        } else {
            None
        },
        None => None,
    }
}

/// An optional [`Transport`] field.
pub open spec fn dec_opt_transport(f: Option<Option<Json>>) -> Option<Option<Transport>> {
    match f {
        Some(None) | Some(Some(Json::Null)) => Some(None),
        Some(Some(j)) => match dec_transport(j) {
            Some(t) => Some(Some(t)),
            None => None,
        },
        None => None,
    }
}

/// A [`DiscoveredDevice`].
pub open spec fn dec_device(j: Json) -> Option<DeviceView> {
    let id = dec_string(struct_field(j, "id"@, 0, 3));
    let name = dec_string(struct_field(j, "name"@, 1, 3));
    let transport = match struct_field(j, "transport"@, 2, 3) {
        Some(Some(t)) => dec_transport(t),
        _ => None,
    };
    if id is Some && name is Some && transport is Some {
        Some(DeviceView { id: id->0, name: name->0, transport: transport->0 })
    } else {
        None
    }
}

/// A [`SessionStats`].
pub open spec fn dec_stats(j: Json) -> Option<StatsView> {
    let fps = dec_number_text(struct_field(j, "fps"@, 0, 2));
    let bitrate = dec_u32(struct_field(j, "bitrate_kbps"@, 1, 2));
    if fps is Some && bitrate is Some {
        Some(StatsView { fps: fps->0, bitrate_kbps: bitrate->0 })
    } else {
        None
    }
}

/// An optional [`SessionStats`] field.
pub open spec fn dec_opt_stats(f: Option<Option<Json>>) -> Option<Option<StatsView>> {
    match f {
        Some(None) | Some(Some(Json::Null)) => Some(None),
        Some(Some(j)) => match dec_stats(j) {
            Some(s) => Some(Some(s)),
            None => None,
        },
        None => None,
    }
}

/// A list of devices: every item must be a device.
pub open spec fn dec_devices(items: Seq<Json>) -> Option<Seq<DeviceView>>
    decreases items.len(),
{
    if items.len() == 0 {
        Some(seq![])
    } else {
        match (dec_devices(items.drop_last()), dec_device(items.last())) {
            (Some(ds), Some(d)) => Some(ds.push(d)),
            _ => None,
        }
    }
}

/// A [`CoreToTray`] message.
pub open spec fn dec_core_to_tray(j: Json) -> Option<CoreToTrayView> {
    match single_entry(j) {
        Some((tag, content)) => if tag == "DeviceList"@ {
            match content {
                Json::Array(items) => match dec_devices(items) {
                    Some(ds) => Some(CoreToTrayView::DeviceList(ds)),
                    None => None,
                },
                _ => None,
            }
        } else if tag == "Status"@ {
            let device = dec_opt_string(struct_field(content, "device"@, 0, 4));
            let transport = dec_opt_transport(struct_field(content, "transport"@, 1, 4));
            let connected = dec_bool(struct_field(content, "connected"@, 2, 4));
            let stats = dec_opt_stats(struct_field(content, "stats"@, 3, 4));
            if device is Some && transport is Some && connected is Some && stats is Some {
                Some(CoreToTrayView::Status {
                    device: device->0,
                    transport: transport->0,
                    connected: connected->0,
                    stats: stats->0,
                })
            } else {
                None
            }
        } else if tag == "Error"@ {
            match dec_string(struct_field(content, "message"@, 0, 1)) {
                Some(m) => Some(CoreToTrayView::Error { message: m }),
                None => None,
            }
        } else {
            None
        },
        None => None,
    }
}

/// A [`TrayToCore`] message.
pub open spec fn dec_tray_to_core(j: Json) -> Option<TrayToCoreView> {
    match unit_variant_name(j) {
        Some(name) => if name == "Disconnect"@ {
            Some(TrayToCoreView::Disconnect)
        } else if name == "OpenLogFolder"@ {
            Some(TrayToCoreView::OpenLogFolder)
        } else {
            dec_tray_to_core_tagged(j)
        },
        None => dec_tray_to_core_tagged(j),
    }
}

/// A [`TrayToCore`] message written as a one-entry object.
pub open spec fn dec_tray_to_core_tagged(j: Json) -> Option<TrayToCoreView> {
    match single_entry(j) {
        Some((tag, content)) => if tag == "Connect"@ {
            match dec_string(struct_field(content, "device_id"@, 0, 1)) {
                Some(id) => Some(TrayToCoreView::Connect { device_id: id }),
                None => None,
            }
        } else {
            None
        },
        None => None,
    }
}

/// A [`Transport`]'s JSON.
pub open spec fn enc_transport(t: Transport) -> Json {
    match t {
        Transport::Wifi => Json::Str("Wifi"@),
        Transport::Usb => Json::Str("Usb"@),
    }
}

/// A [`DiscoveredDevice`]'s JSON.
pub open spec fn enc_device(d: DeviceView) -> Json {
    Json::Object(seq![("id"@, Json::Str(d.id)), ("name"@, Json::Str(d.name)), ("transport"@, enc_transport(d.transport))])
}

/// A [`SessionStats`]'s JSON.
pub open spec fn enc_stats(s: StatsView) -> Json {
    Json::Object(seq![("fps"@, Json::Number(s.fps)), ("bitrate_kbps"@, Json::Number(decimal_text(s.bitrate_kbps as nat)))])
}

/// The JSON items a list of devices is written as, one per device, in order.
pub open spec fn enc_devices(ds: Seq<DeviceView>) -> Seq<Json> {
    ds.map_values(|d: DeviceView| enc_device(d))
}

/// The JSON object of a status report's fields, in declaration order.
pub open spec fn enc_status(
    device: Option<Seq<char>>,
    transport: Option<Transport>,
    connected: bool,
    stats: Option<StatsView>,
) -> Json {
    Json::Object(seq![
        ("device"@, enc_opt_str(device)),
        ("transport"@, enc_opt_transport(transport)),
        ("connected"@, Json::Bool(connected)),
        ("stats"@, enc_opt_stats(stats)),
    ])
}

/// An optional string's JSON: the string, or `null`.
pub open spec fn enc_opt_str(o: Option<Seq<char>>) -> Json {
    match o {
        Some(d) => Json::Str(d),
        None => Json::Null,
    }
}

/// An optional transport's JSON: the transport, or `null`.
pub open spec fn enc_opt_transport(o: Option<Transport>) -> Json {
    match o {
        Some(t) => enc_transport(t),
        None => Json::Null,
    }
}

/// Optional statistics' JSON: the statistics, or `null`.
pub open spec fn enc_opt_stats(o: Option<StatsView>) -> Json {
    match o {
        Some(s) => enc_stats(s),
        None => Json::Null,
    }
}

/// A [`CoreToTray`] message's JSON.
pub open spec fn enc_core_to_tray(m: CoreToTrayView) -> Json {
    match m {
        CoreToTrayView::DeviceList(ds) => Json::Object(seq![("DeviceList"@, Json::Array(enc_devices(ds)))]),
        CoreToTrayView::Status { device, transport, connected, stats } => Json::Object(
            seq![("Status"@, enc_status(device, transport, connected, stats))],
        ),
        CoreToTrayView::Error { message } => Json::Object(seq![("Error"@, Json::Object(seq![("message"@, Json::Str(message))]))]),
    }
}

/// A [`TrayToCore`] message's JSON.
pub open spec fn enc_tray_to_core(m: TrayToCoreView) -> Json {
    match m {
        TrayToCoreView::Connect { device_id } => Json::Object(seq![("Connect"@, Json::Object(seq![("device_id"@, Json::Str(device_id))]))]),
        TrayToCoreView::Disconnect => Json::Str("Disconnect"@),
        TrayToCoreView::OpenLogFolder => Json::Str("OpenLogFolder"@),
    }
}

} // verus!

verus! {

proof fn lemma_decimal_text_digits(n: nat)
    ensures
        decimal_text(n).len() > 0,
        crate::transport::wifi::all_digits(decimal_text(n)),
        crate::transport::wifi::decimal_value(decimal_text(n)) == n,
    decreases n,
{
    if n >= 10 {
        lemma_decimal_text_digits(n / 10);
        let t = decimal_text(n);
        assert(t.drop_last() == decimal_text(n / 10));
        assert(t.last() == (48 + n % 10) as char);
        assert((t.last() as u32) - ('0' as u32) == n % 10);
        assert(n == (n / 10) * 10 + n % 10) by (nonlinear_arith);
        assert(crate::transport::wifi::decimal_value(t) == crate::transport::wifi::decimal_value(t.drop_last()) * 10 + n % 10);
        assert forall|i: int| 0 <= i < t.len() implies crate::transport::wifi::is_digit(#[trigger] t[i]) by {
            if i < t.len() - 1 {
                assert(t[i] == decimal_text(n / 10)[i]);
            }
        }
    } else {
        let t = decimal_text(n);
        assert(t.drop_last() =~= Seq::<char>::empty());
        assert((t.last() as u32) == 48 + n);
        assert(crate::transport::wifi::decimal_value(t.drop_last()) == 0);
        assert(crate::transport::wifi::decimal_value(t) == n);
    }
}

proof fn lemma_decimal_text_parses(n: u32)
    ensures
        spec_parse_u32(decimal_text(n as nat)) == Some(n),
{
    lemma_decimal_text_digits(n as nat);
    let t = decimal_text(n as nat);
    assert(crate::transport::wifi::is_digit(t[0]));
    assert(crate::transport::wifi::digits_part(t) == t);
}

proof fn lemma_message_keys_distinct()
    ensures
        "DeviceList"@ != "Status"@,
        "DeviceList"@ != "Error"@,
        "Status"@ != "Error"@,
        "device"@ != "transport"@,
        "device"@ != "connected"@,
        "device"@ != "stats"@,
        "transport"@ != "connected"@,
        "transport"@ != "stats"@,
        "connected"@ != "stats"@,
        "id"@ != "name"@,
        "id"@ != "transport"@,
        "name"@ != "transport"@,
        "fps"@ != "bitrate_kbps"@,
        "Wifi"@ != "Usb"@,
        "Disconnect"@ != "OpenLogFolder"@,
        "Connect"@ != "Disconnect"@,
        "Connect"@ != "OpenLogFolder"@,
{
    reveal_strlit("DeviceList");
    reveal_strlit("Status");
    reveal_strlit("Error");
    reveal_strlit("device");
    reveal_strlit("transport");
    reveal_strlit("connected");
    reveal_strlit("stats");
    reveal_strlit("id");
    reveal_strlit("name");
    reveal_strlit("fps");
    reveal_strlit("bitrate_kbps");
    reveal_strlit("Wifi");
    reveal_strlit("Usb");
    reveal_strlit("Disconnect");
    reveal_strlit("OpenLogFolder");
    reveal_strlit("Connect");
    assert("DeviceList"@[0] != "Status"@[0]);
    assert("DeviceList"@[0] != "Error"@[0]);
    assert("Status"@[0] != "Error"@[0]);
    assert("device"@[0] != "transport"@[0]);
    assert("device"@[0] != "connected"@[0]);
    assert("device"@[0] != "stats"@[0]);
    assert("transport"@[0] != "connected"@[0]);
    assert("transport"@[0] != "stats"@[0]);
    assert("connected"@[0] != "stats"@[0]);
    assert("id"@[0] != "name"@[0]);
    assert("id"@[0] != "transport"@[0]);
    assert("name"@[0] != "transport"@[0]);
    assert("fps"@[0] != "bitrate_kbps"@[0]);
    assert("Wifi"@[0] != "Usb"@[0]);
    assert("Disconnect"@[0] != "OpenLogFolder"@[0]);
    assert("Connect"@[0] != "Disconnect"@[0]);
    assert("Connect"@[0] != "OpenLogFolder"@[0]);
}

proof fn lemma_transport_round_trip(t: Transport)
    ensures
        dec_transport(enc_transport(t)) == Some(t),
{
    lemma_message_keys_distinct();
}

proof fn lemma_device_round_trip(d: DeviceView)
    ensures
        dec_device(enc_device(d)) == Some(d),
{
    reveal_with_fuel(spec_field, 5);
    lemma_message_keys_distinct();
    lemma_transport_round_trip(d.transport);
    let es = seq![("id"@, Json::Str(d.id)), ("name"@, Json::Str(d.name)), ("transport"@, enc_transport(d.transport))];
    assert(spec_field(es, "id"@) == Some(Json::Str(d.id)));
    assert(es.drop_first() == seq![("name"@, Json::Str(d.name)), ("transport"@, enc_transport(d.transport))]);
    assert(es.drop_first().drop_first() == seq![("transport"@, enc_transport(d.transport))]);
    assert(spec_field(es, "name"@) == Some(Json::Str(d.name)));
    assert(spec_field(es, "transport"@) == Some(enc_transport(d.transport)));
}

proof fn lemma_devices_round_trip(ds: Seq<DeviceView>)
    ensures
        dec_devices(enc_devices(ds)) == Some(ds),
    decreases ds.len(),
{
    let items = enc_devices(ds);
    if ds.len() > 0 {
        assert(items.drop_last() == enc_devices(ds.drop_last()));
        lemma_devices_round_trip(ds.drop_last());
        lemma_device_round_trip(ds.last());
        assert(ds.drop_last().push(ds.last()) == ds);
    } else {
        assert(ds == Seq::<DeviceView>::empty());
    }
}

proof fn lemma_stats_round_trip(s: StatsView)
    ensures
        dec_stats(enc_stats(s)) == Some(s),
{
    reveal_with_fuel(spec_field, 5);
    lemma_message_keys_distinct();
    lemma_decimal_text_parses(s.bitrate_kbps);
    let es = seq![("fps"@, Json::Number(s.fps)), ("bitrate_kbps"@, Json::Number(decimal_text(s.bitrate_kbps as nat)))];
    assert(spec_field(es, "fps"@) == Some(Json::Number(s.fps)));
    assert(es.drop_first() == seq![("bitrate_kbps"@, Json::Number(decimal_text(s.bitrate_kbps as nat)))]);
    assert(spec_field(es, "bitrate_kbps"@) == Some(Json::Number(decimal_text(s.bitrate_kbps as nat))));
}

/// Decoding the JSON of a core-to-tray message gives back the message.
pub proof fn lemma_core_to_tray_round_trip(m: CoreToTrayView)
    ensures
        dec_core_to_tray(enc_core_to_tray(m)) == Some(m),
{
    reveal_with_fuel(spec_field, 5);
    lemma_message_keys_distinct();
    match m {
        CoreToTrayView::DeviceList(ds) => {
            lemma_devices_round_trip(ds);
        },
        CoreToTrayView::Status { device, transport, connected, stats } => {
            let es = seq![
                ("device"@, match device { Some(d) => Json::Str(d), None => Json::Null }),
                ("transport"@, match transport { Some(t) => enc_transport(t), None => Json::Null }),
                ("connected"@, Json::Bool(connected)),
                ("stats"@, match stats { Some(s) => enc_stats(s), None => Json::Null }),
            ];
            assert(spec_field(es, "device"@) == Some(es[0].1));
            assert(es.drop_first()[0] == es[1]);
            assert(spec_field(es, "transport"@) == Some(es[1].1));
            assert(es.drop_first().drop_first()[0] == es[2]);
            assert(spec_field(es, "connected"@) == Some(es[2].1));
            assert(es.drop_first().drop_first().drop_first()[0] == es[3]);
            assert(spec_field(es, "stats"@) == Some(es[3].1));
            if let Some(t) = transport {
                lemma_transport_round_trip(t);
            }
            if let Some(s) = stats {
                lemma_stats_round_trip(s);
            }
        },
        CoreToTrayView::Error { message } => {
        },
    }
}

/// Decoding the JSON of a tray-to-core message gives back the message.
pub proof fn lemma_tray_to_core_round_trip(m: TrayToCoreView)
    ensures
        dec_tray_to_core(enc_tray_to_core(m)) == Some(m),
{
    lemma_message_keys_distinct();
}

/// Whether every number a core-to-tray message carries is a text that
/// `serde_json` prints as itself (the frame rate's; the bit rate is printed
/// as its decimal digits).
pub open spec fn core_to_tray_prints_back(m: CoreToTrayView) -> bool {
    match m {
        CoreToTrayView::Status { stats: Some(s), .. } => number_prints_back(s.fps),
        _ => true,
    }
}

proof fn lemma_transport_reads_back(t: Transport, depth: nat)
    ensures
        reads_back(enc_transport(t), depth),
{
}

proof fn lemma_device_reads_back(d: DeviceView, depth: nat)
    requires
        depth >= 1,
    ensures
        reads_back(enc_device(d), depth),
{
    lemma_message_keys_distinct();
    let es = seq![("id"@, Json::Str(d.id)), ("name"@, Json::Str(d.name)), ("transport"@, enc_transport(d.transport))];
    lemma_transport_reads_back(d.transport, (depth - 1) as nat);
    assert(keys_distinct(es));
    assert forall|i: int| 0 <= i < es.len() implies reads_back(#[trigger] es[i].1, (depth - 1) as nat) by {}
}

proof fn lemma_stats_reads_back(s: StatsView, depth: nat)
    requires
        depth >= 1,
        number_prints_back(s.fps),
    ensures
        reads_back(enc_stats(s), depth),
{
    lemma_message_keys_distinct();
    let t = decimal_text(s.bitrate_kbps as nat);
    assert(number_prints_back(t));
    let es = seq![("fps"@, Json::Number(s.fps)), ("bitrate_kbps"@, Json::Number(t))];
    assert(keys_distinct(es));
    assert forall|i: int| 0 <= i < es.len() implies reads_back(#[trigger] es[i].1, (depth - 1) as nat) by {}
}

/// The JSON of every tray-to-core message reads back as itself.
pub proof fn lemma_tray_to_core_reads_back(m: TrayToCoreView)
    ensures
        reads_back(enc_tray_to_core(m), MAX_JSON_DEPTH as nat),
{
    if let TrayToCoreView::Connect { device_id } = m {
        let inner = seq![("device_id"@, Json::Str(device_id))];
        assert forall|i: int| 0 <= i < inner.len() implies reads_back(#[trigger] inner[i].1, (MAX_JSON_DEPTH - 2) as nat) by {}
        assert(reads_back(Json::Object(inner), (MAX_JSON_DEPTH - 1) as nat));
        let outer = seq![("Connect"@, Json::Object(inner))];
        assert forall|i: int| 0 <= i < outer.len() implies reads_back(#[trigger] outer[i].1, (MAX_JSON_DEPTH - 1) as nat) by {}
    }
}

/// The JSON of a core-to-tray message reads back as itself whenever its
/// numbers print as themselves.
pub proof fn lemma_core_to_tray_reads_back(m: CoreToTrayView)
    requires
        core_to_tray_prints_back(m),
    ensures
        reads_back(enc_core_to_tray(m), MAX_JSON_DEPTH as nat),
{
    lemma_message_keys_distinct();
    let depth: nat = (MAX_JSON_DEPTH - 1) as nat;
    match m {
        CoreToTrayView::DeviceList(ds) => {
            let items = enc_devices(ds);
            assert forall|i: int| 0 <= i < items.len() implies reads_back(#[trigger] items[i], (depth - 1) as nat) by {
                lemma_device_reads_back(ds[i], (depth - 1) as nat);
            }
            assert(reads_back(Json::Array(items), depth));
            let outer = seq![("DeviceList"@, Json::Array(items))];
            assert forall|i: int| 0 <= i < outer.len() implies reads_back(#[trigger] outer[i].1, depth) by {}
        },
        CoreToTrayView::Status { device, transport, connected, stats } => {
            let es = seq![
                ("device"@, enc_opt_str(device)),
                ("transport"@, enc_opt_transport(transport)),
                ("connected"@, Json::Bool(connected)),
                ("stats"@, enc_opt_stats(stats)),
            ];
            if let Some(t) = transport {
                lemma_transport_reads_back(t, (depth - 1) as nat);
            }
            if let Some(s) = stats {
                lemma_stats_reads_back(s, (depth - 1) as nat);
            }
            assert(keys_distinct(es));
            assert forall|i: int| 0 <= i < es.len() implies reads_back(#[trigger] es[i].1, (depth - 1) as nat) by {}
            assert(reads_back(enc_status(device, transport, connected, stats), depth));
            let outer = seq![("Status"@, enc_status(device, transport, connected, stats))];
            assert forall|i: int| 0 <= i < outer.len() implies reads_back(#[trigger] outer[i].1, depth) by {}
        },
        CoreToTrayView::Error { message } => {
            let inner = seq![("message"@, Json::Str(message))];
            assert forall|i: int| 0 <= i < inner.len() implies reads_back(#[trigger] inner[i].1, (depth - 1) as nat) by {}
            assert(reads_back(Json::Object(inner), depth));
            let outer = seq![("Error"@, Json::Object(inner))];
            assert forall|i: int| 0 <= i < outer.len() implies reads_back(#[trigger] outer[i].1, depth) by {}
        },
    }
}

} // verus!

verus! {

// ---------------------------------------------------------------------------
// Reading and writing the JSON shapes.
// ---------------------------------------------------------------------------

/// The values of optional JSON values.
pub open spec fn opt_json(j: Option<&JsonValue>) -> Option<Json> {
    match j {
        Some(v) => Some(v@),
        None => None,
    }
}

/// The values of an optional optional JSON value.
pub open spec fn opt_opt_json(j: Option<Option<&JsonValue>>) -> Option<Option<Json>> {
    match j {
        Some(f) => Some(opt_json(f)),
        None => None,
    }
}

fn unit_variant_name_of(j: &JsonValue) -> (r: Option<&str>)
    ensures
        match r {
            Some(n) => unit_variant_name(j@) == Some(n@),
            None => unit_variant_name(j@) is None,
        },
{
    match j {
        JsonValue::Str(s) => Some(s.as_str()),
        JsonValue::Object(es) => {
            proof {
                crate::json::lemma_object_view(*es);
            }
            if es.len() == 1 {
                match &es[0].1 {
                    JsonValue::Null => Some(es[0].0.as_str()),
                    _ => None,
                }
            } else {
                None
            }
        },
        _ => None,
    }
}

fn single_entry_of(j: &JsonValue) -> (r: Option<(&str, &JsonValue)>)
    ensures
        match r {
            Some((k, v)) => single_entry(j@) == Some((k@, v@)),
            None => single_entry(j@) is None,
        },
{
    match j {
        JsonValue::Object(es) => {
            proof {
                crate::json::lemma_object_view(*es);
            }
            if es.len() == 1 {
                Some((es[0].0.as_str(), &es[0].1))
            } else {
                None
            }
        },
        _ => None,
    }
}

pub(crate) fn struct_field_of<'a>(j: &'a JsonValue, name: &str, index: usize, count: usize) -> (r: Option<Option<&'a JsonValue>>)
    requires
        index < count,
    ensures
        opt_opt_json(r) == struct_field(j@, name@, index as int, count as int),
{
    match j {
        JsonValue::Object(es) => {
            proof {
                crate::json::lemma_object_view(*es);
            }
            Some(field(es.as_slice(), name))
        },
        JsonValue::Array(items) => {
            proof {
                crate::json::lemma_array_view(*items);
            }
            if items.len() == count {
                Some(Some(&items[index]))
            } else {
                None
            }
        },
        _ => None,
    }
}

pub(crate) fn dec_string_of(f: Option<Option<&JsonValue>>) -> (r: Option<String>)
    ensures
        opt_str_view(r) == dec_string(opt_opt_json(f)),
{
    match f {
        Some(Some(JsonValue::Str(s))) => Some(s.clone()),
        _ => None,
    }
}

pub(crate) fn dec_u32_of(f: Option<Option<&JsonValue>>) -> (r: Option<u32>)
    ensures
        r == dec_u32(opt_opt_json(f)),
{
    match f {
        Some(Some(JsonValue::Number(t))) => parse_u32(t.as_str()),
        _ => None,
    }
}

pub(crate) fn dec_number_text_of(f: Option<Option<&JsonValue>>) -> (r: Option<String>)
    ensures
        opt_str_view(r) == dec_number_text(opt_opt_json(f)),
{
    match f {
        Some(Some(JsonValue::Number(t))) => Some(t.clone()),
        _ => None,
    }
}

fn dec_bool_of(f: Option<Option<&JsonValue>>) -> (r: Option<bool>)
    ensures
        r == dec_bool(opt_opt_json(f)),
{
    match f {
        Some(Some(JsonValue::Bool(b))) => Some(*b),
        _ => None,
    }
}

pub(crate) fn dec_opt_string_of(f: Option<Option<&JsonValue>>) -> (r: Option<Option<String>>)
    ensures
        match r {
            Some(v) => dec_opt_string(opt_opt_json(f)) == Some(opt_str_view(v)),
            None => dec_opt_string(opt_opt_json(f)) is None,
        },
{
    match f {
        Some(None) => Some(None),
        Some(Some(JsonValue::Null)) => Some(None),
        Some(Some(JsonValue::Str(s))) => Some(Some(s.clone())),
        _ => None,
    }
}

fn dec_transport_of(j: &JsonValue) -> (r: Option<Transport>)
    ensures
        r == dec_transport(j@),
{
    match unit_variant_name_of(j) {
        Some(name) => {
            if str_equal(name, "Wifi") {
                Some(Transport::Wifi)
            } else if str_equal(name, "Usb") {
                Some(Transport::Usb)
            } else {
                None
            }
        },
        None => None,
    }
}

fn dec_opt_transport_of(f: Option<Option<&JsonValue>>) -> (r: Option<Option<Transport>>)
    ensures
        r == dec_opt_transport(opt_opt_json(f)),
{
    match f {
        Some(None) => Some(None),
        Some(Some(JsonValue::Null)) => Some(None),
        Some(Some(j)) => match dec_transport_of(j) {
            Some(t) => Some(Some(t)),
            None => None,
        },
        None => None,
    }
}

fn dec_device_of(j: &JsonValue) -> (r: Option<DiscoveredDevice>)
    ensures
        match r {
            Some(d) => dec_device(j@) == Some(d@),
            None => dec_device(j@) is None,
        },
{
    let id = dec_string_of(struct_field_of(j, "id", 0, 3));
    let name = dec_string_of(struct_field_of(j, "name", 1, 3));
    let transport = match struct_field_of(j, "transport", 2, 3) {
        Some(Some(t)) => dec_transport_of(t),
        _ => None,
    };
    match (id, name, transport) {
        (Some(id), Some(name), Some(transport)) => Some(DiscoveredDevice { id, name, transport }),
        _ => None,
    }
}

fn dec_stats_of(j: &JsonValue) -> (r: Option<SessionStats>)
    ensures
        match r {
            Some(s) => dec_stats(j@) == Some(s@),
            None => dec_stats(j@) is None,
        },
{
    let fps = dec_number_text_of(struct_field_of(j, "fps", 0, 2));
    let bitrate = dec_u32_of(struct_field_of(j, "bitrate_kbps", 1, 2));
    match (fps, bitrate) {
        (Some(fps), Some(bitrate_kbps)) => Some(SessionStats { fps, bitrate_kbps }),
        _ => None,
    }
}

fn dec_opt_stats_of(f: Option<Option<&JsonValue>>) -> (r: Option<Option<SessionStats>>)
    ensures
        match r {
            Some(v) => dec_opt_stats(opt_opt_json(f)) == Some(opt_stats_view(v)),
            None => dec_opt_stats(opt_opt_json(f)) is None,
        },
{
    match f {
        Some(None) => Some(None),
        Some(Some(JsonValue::Null)) => Some(None),
        Some(Some(j)) => match dec_stats_of(j) {
            Some(s) => Some(Some(s)),
            None => None,
        },
        None => None,
    }
}

fn dec_devices_of(items: &Vec<JsonValue>) -> (r: Option<Vec<DiscoveredDevice>>)
    ensures
        match r {
            Some(ds) => dec_devices(crate::json::array_view(items@)) == Some(devices_view(ds@)),
            None => dec_devices(crate::json::array_view(items@)) is None,
        },
{
    let mut ds: Vec<DiscoveredDevice> = Vec::new();
    let mut i: usize = 0;
    while i < items.len()
        invariant
            i <= items@.len(),
            dec_devices(crate::json::array_view(items@).take(i as int)) == Some(devices_view(ds@)),
        decreases items@.len() - i,
    {
        assert(crate::json::array_view(items@).take(i + 1).drop_last() == crate::json::array_view(items@).take(i as int));
        match dec_device_of(&items[i]) {
            Some(d) => {
                proof {
                    lemma_devices_view_push(ds@, d);
                }
                ds.push(d);
            },
            None => {
                proof {
                    lemma_dec_devices_prefix_fails(crate::json::array_view(items@), i as int);
                }
                return None;
            },
        }
        i = i + 1;
    }
    assert(crate::json::array_view(items@).take(items@.len() as int) == crate::json::array_view(items@));
    Some(ds)
}

proof fn lemma_dec_devices_prefix_fails(items: Seq<Json>, i: int)
    requires
        0 <= i < items.len(),
        dec_device(items[i]) is None,
    ensures
        dec_devices(items) is None,
    decreases items.len(),
{
    if i < items.len() - 1 {
        lemma_dec_devices_prefix_fails(items.drop_last(), i);
    }
}

} // verus!

verus! {

fn dec_core_to_tray_of(j: &JsonValue) -> (r: Option<CoreToTray>)
    ensures
        match r {
            Some(m) => dec_core_to_tray(j@) == Some(m@),
            None => dec_core_to_tray(j@) is None,
        },
{
    match single_entry_of(j) {
        Some((tag, content)) => {
            if str_equal(tag, "DeviceList") {
                match content {
                    JsonValue::Array(items) => {
                        proof {
                            crate::json::lemma_array_view(*items);
                        }
                        match dec_devices_of(items) {
                            Some(ds) => Some(CoreToTray::DeviceList(ds)),
                            None => None,
                        }
                    },
                    _ => None,
                }
            } else if str_equal(tag, "Status") {
                let device = dec_opt_string_of(struct_field_of(content, "device", 0, 4));
                let transport = dec_opt_transport_of(struct_field_of(content, "transport", 1, 4));
                let connected = dec_bool_of(struct_field_of(content, "connected", 2, 4));
                let stats = dec_opt_stats_of(struct_field_of(content, "stats", 3, 4));
                match (device, transport, connected, stats) {
                    (Some(device), Some(transport), Some(connected), Some(stats)) => {
                        Some(CoreToTray::Status { device, transport, connected, stats })
                    },
                    _ => None,
                }
            } else if str_equal(tag, "Error") {
                match dec_string_of(struct_field_of(content, "message", 0, 1)) {
                    Some(message) => Some(CoreToTray::Error { message }),
                    None => None,
                }
            } else {
                None
            }
        },
        None => None,
    }
}

fn dec_tray_to_core_tagged_of(j: &JsonValue) -> (r: Option<TrayToCore>)
    ensures
        match r {
            Some(m) => dec_tray_to_core_tagged(j@) == Some(m@),
            None => dec_tray_to_core_tagged(j@) is None,
        },
{
    match single_entry_of(j) {
        Some((tag, content)) => {
            if str_equal(tag, "Connect") {
                match dec_string_of(struct_field_of(content, "device_id", 0, 1)) {
                    Some(device_id) => Some(TrayToCore::Connect { device_id }),
                    None => None,
                }
            } else {
                None
            }
        },
        None => None,
    }
}

fn dec_tray_to_core_of(j: &JsonValue) -> (r: Option<TrayToCore>)
    ensures
        match r {
            Some(m) => dec_tray_to_core(j@) == Some(m@),
            None => dec_tray_to_core(j@) is None,
        },
{
    match unit_variant_name_of(j) {
        Some(name) => {
            if str_equal(name, "Disconnect") {
                Some(TrayToCore::Disconnect)
            } else if str_equal(name, "OpenLogFolder") {
                Some(TrayToCore::OpenLogFolder)
            } else {
                dec_tray_to_core_tagged_of(j)
            }
        },
        None => dec_tray_to_core_tagged_of(j),
    }
}

fn enc_transport_of(t: Transport) -> (j: JsonValue)
    ensures
        j@ == enc_transport(t),
{
    match t {
        Transport::Wifi => crate::json::json_str("Wifi"),
        Transport::Usb => crate::json::json_str("Usb"),
    }
}

fn enc_device_of(d: &DiscoveredDevice) -> (j: JsonValue)
    ensures
        j@ == enc_device(d@),
{
    let mut es: Vec<(String, JsonValue)> = Vec::new();
    crate::json::push_entry(&mut es, "id", crate::json::json_str(d.id.as_str()));
    crate::json::push_entry(&mut es, "name", crate::json::json_str(d.name.as_str()));
    crate::json::push_entry(&mut es, "transport", enc_transport_of(d.transport));
    assert(object_view(es@) =~= seq![("id"@, Json::Str(d.id@)), ("name"@, Json::Str(d.name@)), ("transport"@, enc_transport(d.transport))]);
    crate::json::json_object(es)
}

fn enc_stats_of(s: &SessionStats) -> (j: JsonValue)
    ensures
        j@ == enc_stats(s@),
{
    let mut es: Vec<(String, JsonValue)> = Vec::new();
    crate::json::push_entry(&mut es, "fps", JsonValue::Number(s.fps.clone()));
    crate::json::push_entry(&mut es, "bitrate_kbps", JsonValue::Number(u32_text(s.bitrate_kbps)));
    assert(object_view(es@) =~= seq![("fps"@, Json::Number(s.fps@)), ("bitrate_kbps"@, Json::Number(decimal_text(s.bitrate_kbps as nat)))]);
    crate::json::json_object(es)
}

fn enc_core_to_tray_of(m: &CoreToTray) -> (j: JsonValue)
    ensures
        j@ == enc_core_to_tray(m@),
{
    match m {
        CoreToTray::DeviceList(devices) => {
            let mut items: Vec<JsonValue> = Vec::new();
            let mut i: usize = 0;
            while i < devices.len()
                invariant
                    i <= devices@.len(),
                    items@.len() == i,
                    forall|k: int| 0 <= k < i ==> (#[trigger] items@[k])@ == enc_device(devices@[k]@),
                decreases devices@.len() - i,
            {
                items.push(enc_device_of(&devices[i]));
                i = i + 1;
            }
            assert(crate::json::array_view(items@) =~= enc_devices(devices_view(devices@)));
            crate::json::json_object1("DeviceList", crate::json::json_array(items))
        },
        CoreToTray::Status { device, transport, connected, stats } => {
            let mut es: Vec<(String, JsonValue)> = Vec::new();
            crate::json::push_entry(&mut es, "device", match device {
                Some(d) => crate::json::json_str(d.as_str()),
                None => JsonValue::Null,
            });
            crate::json::push_entry(&mut es, "transport", match transport {
                Some(t) => enc_transport_of(*t),
                None => JsonValue::Null,
            });
            crate::json::push_entry(&mut es, "connected", JsonValue::Bool(*connected));
            crate::json::push_entry(&mut es, "stats", match stats {
                Some(s) => enc_stats_of(s),
                None => JsonValue::Null,
            });
            assert(object_view(es@) =~= seq![
                ("device"@, enc_opt_str(opt_str_view(*device))),
                ("transport"@, enc_opt_transport(*transport)),
                ("connected"@, Json::Bool(*connected)),
                ("stats"@, enc_opt_stats(opt_stats_view(*stats))),
            ]);
            let inner = crate::json::json_object(es);
            assert(inner@ == enc_status(opt_str_view(*device), *transport, *connected, opt_stats_view(*stats)));
            crate::json::json_object1("Status", inner)
        },
        CoreToTray::Error { message } => {
            crate::json::json_object1("Error", crate::json::json_object1("message", crate::json::json_str(message.as_str())))
        },
    }
}

fn enc_tray_to_core_of(m: &TrayToCore) -> (j: JsonValue)
    ensures
        j@ == enc_tray_to_core(m@),
{
    match m {
        TrayToCore::Connect { device_id } => {
            crate::json::json_object1("Connect", crate::json::json_object1("device_id", crate::json::json_str(device_id.as_str())))
        },
        TrayToCore::Disconnect => crate::json::json_str("Disconnect"),
        TrayToCore::OpenLogFolder => crate::json::json_str("OpenLogFolder"),
    }
}

/// A line that failed to parse as an IPC message: either not JSON at all, or
/// JSON of a shape no message has.
#[derive(Debug, Clone, Copy, PartialEq, Eq, Structural)]
pub enum IpcError {
    /// The line is not a well-formed JSON document.
    MalformedJson,
    /// The line is JSON, but not the shape of the expected message.
    UnexpectedShape,
}

impl IpcError {
    /// A description of the error.
    pub fn describe(&self) -> (text: String)
        ensures
            text@ == match *self {
                IpcError::MalformedJson => "malformed IPC message: the line is not JSON"@,
                IpcError::UnexpectedShape => "malformed IPC message: the JSON is not the shape of the expected message"@,
            },
    {
        match self {
            IpcError::MalformedJson => String::from_str("malformed IPC message: the line is not JSON"),
            IpcError::UnexpectedShape => String::from_str(
                "malformed IPC message: the JSON is not the shape of the expected message",
            ),
        }
    }
}

/// A message type of the IPC schema, with its JSON shape.
pub trait IpcMessage: Sized + View {
    /// The JSON a message's value is written as.
    spec fn json_of(v: Self::V) -> Json;

    /// The message value a JSON value is read as, if any.
    spec fn value_of(j: Json) -> Option<Self::V>;

    /// Whether every number the message carries is a text `serde_json`
    /// prints as itself.
    spec fn prints_back(v: Self::V) -> bool;

    /// A message's JSON reads back as the message, and `serde_json` reads
    /// the text it prints for that JSON back as the same JSON.
    proof fn lemma_json_reads_back(v: Self::V)
        requires
            Self::prints_back(v),
        ensures
            Self::value_of(Self::json_of(v)) == Some(v),
            reads_back(Self::json_of(v), MAX_JSON_DEPTH as nat),
    ;

    fn to_json(&self) -> (j: JsonValue)
        ensures
            j@ == Self::json_of(self@),
    ;

    fn from_json(j: &JsonValue) -> (r: Option<Self>)
        ensures
            match r {
                Some(m) => Self::value_of(j@) == Some(m@),
                None => Self::value_of(j@) is None,
            },
    ;
}

impl IpcMessage for CoreToTray {
    open spec fn json_of(v: CoreToTrayView) -> Json {
        enc_core_to_tray(v)
    }

    open spec fn value_of(j: Json) -> Option<CoreToTrayView> {
        dec_core_to_tray(j)
    }

    open spec fn prints_back(v: CoreToTrayView) -> bool {
        core_to_tray_prints_back(v)
    }

    proof fn lemma_json_reads_back(v: CoreToTrayView) {
        lemma_core_to_tray_round_trip(v);
        lemma_core_to_tray_reads_back(v);
    }

    fn to_json(&self) -> (j: JsonValue) {
        enc_core_to_tray_of(self)
    }

    fn from_json(j: &JsonValue) -> (r: Option<Self>) {
        dec_core_to_tray_of(j)
    }
}

impl IpcMessage for TrayToCore {
    open spec fn json_of(v: TrayToCoreView) -> Json {
        enc_tray_to_core(v)
    }

    open spec fn value_of(j: Json) -> Option<TrayToCoreView> {
        dec_tray_to_core(j)
    }

    open spec fn prints_back(v: TrayToCoreView) -> bool {
        true
    }

    proof fn lemma_json_reads_back(v: TrayToCoreView) {
        lemma_tray_to_core_round_trip(v);
        lemma_tray_to_core_reads_back(v);
    }

    fn to_json(&self) -> (j: JsonValue) {
        enc_tray_to_core_of(self)
    }

    fn from_json(j: &JsonValue) -> (r: Option<Self>) {
        dec_tray_to_core_of(j)
    }
}

/// What reading `line` as a message of type `T` gives.
pub open spec fn spec_from_line<T: IpcMessage>(line: Seq<char>) -> Result<T::V, IpcError> {
    match json_text_parse(line) {
        None => Err(IpcError::MalformedJson),
        Some(j) => match T::value_of(j) {
            Some(v) => Ok(v),
            None => Err(IpcError::UnexpectedShape),
        },
    }
}

/// Serializes an IPC message to a single JSON line (no trailing newline; the
/// pipe writer frames lines with `\n`).
/// Whenever the message's numbers print as themselves (always, for a
/// `TrayToCore`), reading the line back gives the message.
pub fn to_line<T: IpcMessage>(msg: &T) -> (line: String)
    ensures
        line@ == json_text_render(T::json_of(msg@)),
        T::prints_back(msg@) ==> spec_from_line::<T>(line@) == Ok::<T::V, IpcError>(msg@),
{
    let j = msg.to_json();
    proof {
        if T::prints_back(msg@) {
            T::lemma_json_reads_back(msg@);
        }
    }
    render_json(&j)
}

/// Parses one line of newline-delimited JSON into an IPC message. Malformed
/// or unexpected JSON is an explicit error, never a panic, so the caller can
/// reject and log it instead of acting on it.
pub fn from_line<T: IpcMessage>(line: &str) -> (r: Result<T, IpcError>)
    ensures
        match r {
            Ok(m) => spec_from_line::<T>(line@) == Ok::<T::V, IpcError>(m@),
            Err(e) => spec_from_line::<T>(line@) == Err::<T::V, IpcError>(e),
        },
{
    match parse_json(line) {
        None => Err(IpcError::MalformedJson),
        Some(j) => match T::from_json(&j) {
            Some(m) => Ok(m),
            None => Err(IpcError::UnexpectedShape),
        },
    }
}

/// Reading the JSON a message is written as gives back that message: for
/// every message of the schema, in either direction.
pub proof fn lemma_message_json_round_trip(core: CoreToTrayView, tray: TrayToCoreView)
    ensures
        <CoreToTray as IpcMessage>::value_of(<CoreToTray as IpcMessage>::json_of(core)) == Some(core),
        <TrayToCore as IpcMessage>::value_of(<TrayToCore as IpcMessage>::json_of(tray)) == Some(tray),
{
    lemma_core_to_tray_round_trip(core);
    lemma_tray_to_core_round_trip(tray);
}

} // verus!
