//! WiFi/LAN device discovery via Bonjour (`_opensidecar._tcp`).
//!
//! The mDNS browse itself sits behind [`WifiBrowseSource`]; everything below
//! that seam (TXT-key lookup and `pv` defaulting) is plain verified logic.

use vstd::prelude::*;
use crate::protocol::ASSUMED_WHEN_ABSENT;
use crate::text::{chars_of, str_equal};
use super::net::SocketAddress;

verus! {

/// One resolved service instance as reported by the browse source, before
/// TXT parsing and defaulting.
#[derive(Debug, PartialEq, Eq)]
pub struct ServiceRecord {
    /// The Bonjour instance name: display-only, never a device identity.
    pub name: String,
    pub address: SocketAddress,
    /// Raw TXT record key/value pairs, exactly as advertised. An absent TXT
    /// record or key is represented by the key's absence.
    pub txt: Vec<(String, String)>,
}

/// The mDNS/DNS-SD browse for `_opensidecar._tcp`.
pub trait WifiBrowseSource {
    /// Whether one call may hand over `records`. A source that says no more
    /// allows every list.
    closed spec fn may_hand_over(&self, records: Seq<ServiceRecord>) -> bool {
        true
    }

    /// Whether this source keeps the record
    /// [`WifiBrowseSource::handed_over`]. One that does not keeps none.
    closed spec fn keeps_record(&self) -> bool {
        false
    }

    /// What every call so far handed over, in order, where the record is
    /// kept.
    closed spec fn handed_over(&self) -> Seq<Seq<ServiceRecord>> {
        Seq::empty()
    }

    fn discovered(&mut self) -> (records: Vec<ServiceRecord>)
        ensures
            old(self).may_hand_over(records@),
            final(self).keeps_record() == old(self).keeps_record(),
            old(self).keeps_record() ==> final(self).handed_over() == old(self).handed_over().push(records@),
    ;
}

/// A WiFi-reachable device.
#[derive(Debug, PartialEq, Eq)]
pub struct DiscoveredDevice {
    /// The TXT `id` key: stable per-install identity; `None` when the TXT
    /// record or key is absent.
    pub id: Option<String>,
    pub name: String,
    pub address: SocketAddress,
    /// The receiver's protocol version; `ASSUMED_WHEN_ABSENT` when the `pv`
    /// key is absent or not a decimal integer.
    pub pv: u32,
}

impl Clone for DiscoveredDevice {
    fn clone(&self) -> (r: Self)
        ensures
            r == *self,
    {
        DiscoveredDevice {
            id: match &self.id {
                Some(id) => Some(id.clone()),
                None => None,
            },
            name: self.name.clone(),
            address: self.address,
            pv: self.pv,
        }
    }
}

/// The index of the first TXT pair whose key is `key`, if any.
pub open spec fn first_key_index(txt: Seq<(String, String)>, key: Seq<char>) -> Option<int> {
    if exists|i: int| 0 <= i < txt.len() && txt[i].0@ == key {
        Some(choose|i: int| 0 <= i < txt.len() && txt[i].0@ == key
            && forall|j: int| 0 <= j < i ==> txt[j].0@ != key)
    } else {
        None
    }
}

/// The value of the first TXT pair whose key is `key`.
pub fn txt_value<'a>(txt: &'a [(String, String)], key: &str) -> (r: Option<&'a str>)
    ensures
        match r {
            Some(v) => exists|i: int| 0 <= i < txt@.len() && txt@[i].0@ == key@
                && v@ == txt@[i].1@ && forall|j: int| 0 <= j < i ==> txt@[j].0@ != key@,
            None => forall|i: int| 0 <= i < txt@.len() ==> txt@[i].0@ != key@,
        },
{
    let mut i: usize = 0;
    while i < txt.len()
        invariant
            i <= txt@.len(),
            forall|j: int| 0 <= j < i ==> txt@[j].0@ != key@,
        decreases txt@.len() - i,
    {
        if str_equal(txt[i].0.as_str(), key) {
            return Some(txt[i].1.as_str());
        }
        i = i + 1;
    }
    None
}

/// Whether `c` is an ASCII decimal digit.
pub open spec fn is_digit(c: char) -> bool {
    '0' <= c <= '9'
}

/// The value of a run of decimal digits.
pub open spec fn decimal_value(ds: Seq<char>) -> nat
    decreases ds.len(),
{
    if ds.len() == 0 {
        0
    } else {
        decimal_value(ds.drop_last()) * 10 + ((ds.last() as u32) - ('0' as u32)) as nat
    }
}

/// `s` without one leading `+`, if it has one.
pub open spec fn digits_part(s: Seq<char>) -> Seq<char> {
    if s.len() > 0 && s[0] == '+' { s.drop_first() } else { s }
}

/// Whether every character of `ds` is an ASCII decimal digit.
pub open spec fn all_digits(ds: Seq<char>) -> bool {
    forall|i: int| 0 <= i < ds.len() ==> is_digit(#[trigger] ds[i])
}

/// What parsing `s` as a decimal `u32` gives: an optional `+`, then one or
/// more ASCII digits whose value fits in `u32`.
pub open spec fn spec_parse_u32(s: Seq<char>) -> Option<u32> {
    let ds = digits_part(s);
    if ds.len() > 0 && all_digits(ds) && decimal_value(ds) <= u32::MAX {
        Some(decimal_value(ds) as u32)
    } else {
        None
    }
}

proof fn lemma_decimal_value_grows(ds: Seq<char>, i: int)
    requires
        0 <= i <= ds.len(),
        forall|k: int| 0 <= k < ds.len() ==> is_digit(ds[k]),
    ensures
        decimal_value(ds.subrange(0, i)) <= decimal_value(ds),
    decreases ds.len() - i,
{
    if i < ds.len() {
        lemma_decimal_value_grows(ds, i + 1);
        assert(ds.subrange(0, i + 1).drop_last() == ds.subrange(0, i));
    } else {
        assert(ds.subrange(0, i) == ds);
    }
}

/// Parses `s` as a decimal `u32`, the way `str::parse::<u32>` does.
pub fn parse_u32(s: &str) -> (r: Option<u32>)
    ensures
        r == spec_parse_u32(s@),
{
    let cs = chars_of(s);
    let start: usize = if cs.len() > 0 && cs[0] == '+' { 1 } else { 0 };
    let ghost ds = digits_part(s@);
    assert(ds == cs@.subrange(start as int, cs@.len() as int));
    if start >= cs.len() {
        return None;
    }
    let mut value: u64 = 0;
    let mut i: usize = start;
    while i < cs.len()
        invariant
            start <= i <= cs@.len(),
            cs@ == s@,
            ds == digits_part(s@),
            ds == cs@.subrange(start as int, cs@.len() as int),
            forall|k: int| start <= k < i ==> is_digit(cs@[k]),
            value as nat == decimal_value(cs@.subrange(start as int, i as int)),
            value <= u32::MAX,
        decreases cs@.len() - i,
    {
        let c = cs[i];
        if !('0' <= c && c <= '9') {
            assert(!is_digit(ds[i - start]));
            assert(!all_digits(ds));
            return None;
        }
        let d = (c as u32 - '0' as u32) as u64;
        let next = value * 10 + d;
        assert(cs@.subrange(start as int, i + 1).drop_last() == cs@.subrange(start as int, i as int));
        if next > 0xFFFF_FFFF {
            proof {
                if all_digits(ds) {
                    lemma_decimal_value_grows(ds, (i + 1 - start) as int);
                    assert(ds.subrange(0, (i + 1 - start) as int) == cs@.subrange(start as int, i + 1));
                    assert(decimal_value(ds) > u32::MAX);
                }
            }
            return None;
        }
        value = next;
        i = i + 1;
    }
    assert(cs@.subrange(start as int, cs@.len() as int) == ds);
    Some(value as u32)
}

/// Whether `d` is what parsing `record` gives: its name and address, the
/// first `id` TXT value as its id, and the first `pv` TXT value parsed as a
/// decimal `u32` as its protocol version, `ASSUMED_WHEN_ABSENT` when that
/// key is missing or malformed.
pub open spec fn parsed_from(d: DiscoveredDevice, record: ServiceRecord) -> bool {
    &&& d.name == record.name
    &&& d.address == record.address
    &&& match first_key_index(record.txt@, seq!['i', 'd']) {
        Some(i) => d.id matches Some(id) && id@ == record.txt@[i].1@,
        None => d.id is None,
    }
    &&& d.pv == match first_key_index(record.txt@, seq!['p', 'v']) {
        Some(i) => match spec_parse_u32(record.txt@[i].1@) {
            Some(n) => n,
            None => ASSUMED_WHEN_ABSENT,
        },
        None => ASSUMED_WHEN_ABSENT,
    }
}

proof fn lemma_first_key_index(txt: Seq<(String, String)>, key: Seq<char>, i: int)
    requires
        0 <= i < txt.len(),
        txt[i].0@ == key,
        forall|j: int| 0 <= j < i ==> txt[j].0@ != key,
    ensures
        first_key_index(txt, key) == Some(i),
{
    let k = choose|k: int| 0 <= k < txt.len() && txt[k].0@ == key
        && forall|j: int| 0 <= j < k ==> txt[j].0@ != key;
    assert(0 <= k < txt.len() && txt[k].0@ == key && forall|j: int| 0 <= j < k ==> txt[j].0@ != key);
    if k < i {
    } else if k > i {
        assert(txt[i].0@ != key);
    }
}

/// Parses one resolved service record into a [`DiscoveredDevice`], applying
/// the `pv`-absent/malformed default.
pub fn parse_service_record(record: &ServiceRecord) -> (d: DiscoveredDevice)
    ensures
        parsed_from(d, *record),
{
    proof {
        reveal_strlit("id");
        reveal_strlit("pv");
    }
    let id = match txt_value(record.txt.as_slice(), "id") {
        Some(v) => {
            proof {
                let i = choose|i: int| 0 <= i < record.txt@.len() && record.txt@[i].0@ == "id"@
                    && v@ == record.txt@[i].1@ && forall|j: int| 0 <= j < i ==> record.txt@[j].0@ != "id"@;
                lemma_first_key_index(record.txt@, "id"@, i);
            }
            Some(String::from_str(v))
        },
        None => None,
    };
    let pv = match txt_value(record.txt.as_slice(), "pv") {
        Some(v) => {
            proof {
                let i = choose|i: int| 0 <= i < record.txt@.len() && record.txt@[i].0@ == "pv"@
                    && v@ == record.txt@[i].1@ && forall|j: int| 0 <= j < i ==> record.txt@[j].0@ != "pv"@;
                lemma_first_key_index(record.txt@, "pv"@, i);
            }
            match parse_u32(v) {
                Some(n) => n,
                None => ASSUMED_WHEN_ABSENT,
            }
        },
        None => ASSUMED_WHEN_ABSENT,
    };
    proof {
        assert("id"@ == seq!['i', 'd']);
        assert("pv"@ == seq!['p', 'v']);
    }
    DiscoveredDevice { id, name: record.name.clone(), address: record.address, pv }
}

/// Parses every record, in order.
pub fn parse_service_records(records: &[ServiceRecord]) -> (devices: Vec<DiscoveredDevice>)
    ensures
        devices@.len() == records@.len(),
        forall|i: int| 0 <= i < records@.len() ==> parsed_from(#[trigger] devices@[i], records@[i]),
{
    let mut devices: Vec<DiscoveredDevice> = Vec::new();
    let mut i: usize = 0;
    while i < records.len()
        invariant
            i <= records@.len(),
            devices@.len() == i,
            forall|k: int| 0 <= k < i ==> parsed_from(#[trigger] devices@[k], records@[k]),
        decreases records@.len() - i,
    {
        devices.push(parse_service_record(&records[i]));
        i = i + 1;
    }
    devices
}

/// Asks `source` once for the `_opensidecar._tcp` instances it browsed and
/// parses each record it reports into a [`DiscoveredDevice`], in order.
pub fn discover<S: WifiBrowseSource>(source: &mut S) -> (devices: Vec<DiscoveredDevice>)
    ensures
        final(source).keeps_record() == old(source).keeps_record(),
        exists|records: Seq<ServiceRecord>| #![trigger records.len()] {
            &&& old(source).may_hand_over(records)
            &&& old(source).keeps_record() ==> final(source).handed_over() == old(source).handed_over().push(records)
            &&& devices@.len() == records.len()
            &&& forall|i: int| 0 <= i < records.len() ==> parsed_from(#[trigger] devices@[i], records[i])
        },
{
    let records = source.discovered();
    parse_service_records(records.as_slice())
}

/// The index of the first device in `list` named `name`, if any.
pub open spec fn first_named(list: Seq<DiscoveredDevice>, name: Seq<char>) -> Option<int> {
    if exists|i: int| 0 <= i < list.len() && list[i].name@ == name {
        Some(choose|i: int| 0 <= i < list.len() && list[i].name@ == name
            && forall|j: int| 0 <= j < i ==> list[j].name@ != name)
    } else {
        None
    }
}

/// `list` with `d` merged in: it replaces the first device of the same
/// name, or joins the end when there is none.
pub open spec fn merge_one(list: Seq<DiscoveredDevice>, d: DiscoveredDevice) -> Seq<DiscoveredDevice> {
    match first_named(list, d.name@) {
        Some(i) => list.update(i, d),
        None => list.push(d),
    }
}

/// `list` with each of `discovered` merged in, in order.
pub open spec fn merge_all(list: Seq<DiscoveredDevice>, discovered: Seq<DiscoveredDevice>) -> Seq<DiscoveredDevice>
    decreases discovered.len(),
{
    if discovered.len() == 0 {
        list
    } else {
        merge_all(merge_one(list, discovered[0]), discovered.drop_first())
    }
}

proof fn lemma_first_named(list: Seq<DiscoveredDevice>, name: Seq<char>, i: int)
    requires
        0 <= i < list.len(),
        list[i].name@ == name,
        forall|j: int| 0 <= j < i ==> list[j].name@ != name,
    ensures
        first_named(list, name) == Some(i),
{
    let k = choose|k: int| 0 <= k < list.len() && list[k].name@ == name
        && forall|j: int| 0 <= j < k ==> list[j].name@ != name;
    assert(0 <= k < list.len() && list[k].name@ == name && forall|j: int| 0 <= j < k ==> list[j].name@ != name);
    if k < i {
    } else if k > i {
        assert(list[i].name@ != name);
    }
}

/// Merges one discovered device into the known list: it replaces the first
/// known device of the same name, or is appended.
pub fn merge_discovered_device(list: &mut Vec<DiscoveredDevice>, d: DiscoveredDevice)
    ensures
        final(list)@ == merge_one(old(list)@, d),
{
    let mut i: usize = 0;
    while i < list.len()
        invariant
            i <= list@.len(),
            list@ == old(list)@,
            forall|j: int| 0 <= j < i ==> list@[j].name@ != d.name@,
        decreases list@.len() - i,
    {
        if str_equal(list[i].name.as_str(), d.name.as_str()) {
            proof {
                lemma_first_named(list@, d.name@, i as int);
            }
            list.set(i, d);
            return;
        }
        i = i + 1;
    }
    list.push(d);
}

/// Merges freshly discovered devices into the known list, each replacing
/// the known device of the same name or joining the end. The browse reports
/// only what resolved since the last call, so the list accumulates rather
/// than being replaced.
pub fn merge_discovered(list: &mut Vec<DiscoveredDevice>, discovered: Vec<DiscoveredDevice>)
    ensures
        final(list)@ == merge_all(old(list)@, discovered@),
{
    let mut rest = discovered;
    while rest.len() > 0
        invariant
            merge_all(old(list)@, discovered@) == merge_all(list@, rest@),
        decreases rest@.len(),
    {
        let ghost before = rest@;
        let d = rest.remove(0);
        assert(before.drop_first() =~= rest@);
        merge_discovered_device(list, d);
    }
}

} // verus!
