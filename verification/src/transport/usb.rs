//! USB device discovery via usbmuxd.
//!
//! The usbmuxd client sits behind [`UsbAttachSource`]; folding its
//! attach/detach events into the set of attached devices is verified logic.
//!
//! Sets of device ids are kept as strictly sorted `Vec<String>`s (see
//! [`strictly_sorted`]) rather than as `BTreeSet<String>`s: vstd specifies
//! `BTreeSet` only for key types it knows to obey the laws of a total order,
//! and it states no such law for `String`, so a `BTreeSet<String>`'s
//! operations would come with no usable contract. The sorted vector carries
//! the same meaning (ascending, no duplicates) as its stated invariant.

use vstd::prelude::*;
use crate::text::chars_of;

verus! {

/// One attach/detach event as reported by the usbmuxd client.
#[derive(Debug, PartialEq, Eq)]
pub enum UsbEvent {
    Attached { device_id: String },
    Detached { device_id: String },
}

/// The usbmuxd attach/detach event stream.
pub trait UsbAttachSource {
    /// Whether one poll may report `events`. A source that says no more
    /// allows every report.
    closed spec fn may_report(&self, events: Seq<UsbEvent>) -> bool {
        true
    }

    /// Whether this source keeps the record [`UsbAttachSource::polls`]. One
    /// that does not keeps none.
    closed spec fn keeps_record(&self) -> bool {
        false
    }

    /// What every poll so far reported, in order, where the record is kept.
    closed spec fn polls(&self) -> Seq<Seq<UsbEvent>> {
        Seq::empty()
    }

    fn poll_events(&mut self) -> (events: Vec<UsbEvent>)
        ensures
            old(self).may_report(events@),
            final(self).keeps_record() == old(self).keeps_record(),
            old(self).keeps_record() ==> final(self).polls() == old(self).polls().push(events@),
    ;
}

/// A USB-attached device, identified by its stable usbmuxd identifier.
#[derive(Debug, PartialEq, Eq, PartialOrd, Ord)]
pub struct DiscoveredDevice {
    pub id: String,
}

impl Clone for UsbEvent {
    fn clone(&self) -> (r: Self)
        ensures
            r == *self,
    {
        match self {
            UsbEvent::Attached { device_id } => UsbEvent::Attached { device_id: device_id.clone() },
            UsbEvent::Detached { device_id } => UsbEvent::Detached { device_id: device_id.clone() },
        }
    }
}

impl Clone for DiscoveredDevice {
    fn clone(&self) -> (r: Self)
        ensures
            r == *self,
    {
        DiscoveredDevice { id: self.id.clone() }
    }
}

/// Lexicographic order on character sequences by code point, which is the
/// order of `String`'s `Ord` (UTF-8 preserves code point order).
pub open spec fn seq_lt(a: Seq<char>, b: Seq<char>) -> bool
    decreases a.len(),
{
    if b.len() == 0 {
        false
    } else if a.len() == 0 {
        true
    } else if a[0] != b[0] {
        a[0] < b[0]
    } else {
        seq_lt(a.drop_first(), b.drop_first())
    }
}

/// Ids in strictly increasing order: sorted, without duplicates.
pub open spec fn strictly_sorted(ids: Seq<String>) -> bool {
    forall|i: int, j: int| 0 <= i < j < ids.len() ==> seq_lt(#[trigger] ids[i]@, #[trigger] ids[j]@)
}

/// The set of attached ids after one event.
pub open spec fn step_event(known: Set<Seq<char>>, event: UsbEvent) -> Set<Seq<char>> {
    match event {
        UsbEvent::Attached { device_id } => known.insert(device_id@),
        UsbEvent::Detached { device_id } => known.remove(device_id@),
    }
}

/// The set of ids attached after the events `events`, in order, starting
/// from `known`.
pub open spec fn fold_events(known: Set<Seq<char>>, events: Seq<UsbEvent>) -> Set<Seq<char>>
    decreases events.len(),
{
    if events.len() == 0 {
        known
    } else {
        step_event(fold_events(known, events.drop_last()), events.last())
    }
}

/// The ids a list holds, as a set.
pub open spec fn id_set(ids: Seq<String>) -> Set<Seq<char>> {
    Set::new(|s: Seq<char>| exists|i: int| 0 <= i < ids.len() && ids[i]@ == s)
}

proof fn lemma_seq_lt_irreflexive(a: Seq<char>)
    ensures
        !seq_lt(a, a),
    decreases a.len(),
{
    if a.len() > 0 {
        lemma_seq_lt_irreflexive(a.drop_first());
    }
}

proof fn lemma_seq_lt_transitive(a: Seq<char>, b: Seq<char>, c: Seq<char>)
    requires
        seq_lt(a, b),
        seq_lt(b, c),
    ensures
        seq_lt(a, c),
    decreases a.len(),
{
    if a.len() > 0 && b.len() > 0 && c.len() > 0 && a[0] == b[0] && b[0] == c[0] {
        lemma_seq_lt_transitive(a.drop_first(), b.drop_first(), c.drop_first());
    }
}

proof fn lemma_seq_lt_total(a: Seq<char>, b: Seq<char>)
    ensures
        a == b || seq_lt(a, b) || seq_lt(b, a),
    decreases a.len(),
{
    if a.len() > 0 && b.len() > 0 && a[0] == b[0] {
        lemma_seq_lt_total(a.drop_first(), b.drop_first());
        if a.drop_first() == b.drop_first() {
            assert(a =~= seq![a[0]] + a.drop_first());
            assert(b =~= seq![b[0]] + b.drop_first());
        }
    } else if a.len() == 0 && b.len() == 0 {
        assert(a == b);
    }
}

/// Compares two character sequences in [`seq_lt`] order: `-1`, `0` or `1`.
fn compare_chars(a: &[char], b: &[char]) -> (r: i8)
    ensures
        r == 0 <==> a@ == b@,
        r < 0 <==> seq_lt(a@, b@),
        r > 0 <==> seq_lt(b@, a@),
{
    let mut i: usize = 0;
    assert(a@.skip(0) == a@);
    assert(b@.skip(0) == b@);
    while i < a.len() && i < b.len()
        invariant
            i <= a@.len(),
            i <= b@.len(),
            a@.subrange(0, i as int) == b@.subrange(0, i as int),
            seq_lt(a@, b@) == seq_lt(a@.skip(i as int), b@.skip(i as int)),
            seq_lt(b@, a@) == seq_lt(b@.skip(i as int), a@.skip(i as int)),
        decreases a@.len() - i,
    {
        assert(a@.skip(i as int)[0] == a@[i as int]);
        assert(b@.skip(i as int)[0] == b@[i as int]);
        if a[i] != b[i] {
            proof {
                lemma_seq_lt_total(a@, b@);
                if a@ == b@ {
                    assert(a@[i as int] == b@[i as int]);
                }
            }
            return if a[i] < b[i] { -1 } else { 1 };
        }
        assert(a@.skip(i as int).drop_first() == a@.skip(i + 1));
        assert(b@.skip(i as int).drop_first() == b@.skip(i + 1));
        assert(a@.subrange(0, i + 1) == a@.subrange(0, i as int).push(a@[i as int]));
        assert(b@.subrange(0, i + 1) == b@.subrange(0, i as int).push(b@[i as int]));
        i = i + 1;
    }
    proof {
        lemma_seq_lt_irreflexive(a@);
    }
    if a.len() == b.len() {
        assert(a@ == a@.subrange(0, i as int));
        assert(b@ == b@.subrange(0, i as int));
        0
    } else if a.len() < b.len() {
        assert(a@.skip(i as int).len() == 0);
        assert(a@ != b@);
        -1
    } else {
        assert(b@.skip(i as int).len() == 0);
        assert(a@ != b@);
        1
    }
}

/// Compares two strings in [`seq_lt`] order: `-1`, `0` or `1`.
fn compare_strings(a: &String, b: &String) -> (r: i8)
    ensures
        r == 0 <==> a@ == b@,
        r < 0 <==> seq_lt(a@, b@),
        r > 0 <==> seq_lt(b@, a@),
{
    let ac = chars_of(a.as_str());
    let bc = chars_of(b.as_str());
    compare_chars(ac.as_slice(), bc.as_slice())
}

/// Folds one attach/detach event into `known`, a strictly sorted list of
/// attached device ids: an attach inserts the id (once), a detach removes it.
pub fn apply_usb_event(known: &mut Vec<String>, event: UsbEvent)
    requires
        strictly_sorted(old(known)@),
    ensures
        strictly_sorted(final(known)@),
        id_set(final(known)@) == step_event(id_set(old(known)@), event),
{
    let ghost old_ids = known@;
    match event {
        UsbEvent::Attached { device_id } => {
            let mut i: usize = 0;
            let mut done = false;
            while !done && i < known.len()
                invariant
                    known@ == old_ids,
                    i <= old_ids.len(),
                    forall|k: int| 0 <= k < i ==> seq_lt(#[trigger] old_ids[k]@, device_id@),
                    done ==> i < old_ids.len() && !seq_lt(old_ids[i as int]@, device_id@),
                decreases old_ids.len() - i + (if done { 0int } else { 1int }),
            {
                let c = compare_strings(&known[i], &device_id);
                if c < 0 {
                    i = i + 1;
                } else {
                    done = true;
                }
            }
            if i < known.len() {
                proof {
                    lemma_seq_lt_total(old_ids[i as int]@, device_id@);
                }
                if compare_strings(&known[i], &device_id) == 0 {
                    assert(id_set(old_ids).insert(device_id@) =~= id_set(old_ids)) by {
                        assert(old_ids[i as int]@ == device_id@);
                    }
                    return;
                }
            }
            proof {
                assert forall|k: int| i <= k < old_ids.len() implies seq_lt(device_id@, #[trigger] old_ids[k]@) by {
                    if k > i {
                        lemma_seq_lt_transitive(device_id@, old_ids[i as int]@, old_ids[k]@);
                    }
                }
            }
            let ghost id_view = device_id@;
            known.insert(i, device_id);
            proof {
                let n = known@;
                assert(n == old_ids.insert(i as int, n[i as int]));
                assert forall|a: int, b: int| 0 <= a < b < n.len() implies seq_lt(#[trigger] n[a]@, #[trigger] n[b]@) by {
                    if b < i {
                    } else if b == i {
                    } else if a == i {
                        assert(n[b] == old_ids[b - 1]);
                    } else if a < i {
                        assert(n[b] == old_ids[b - 1]);
                        lemma_seq_lt_transitive(n[a]@, id_view, n[b]@);
                    } else {
                        assert(n[a] == old_ids[a - 1]);
                        assert(n[b] == old_ids[b - 1]);
                    }
                }
                assert forall|x: Seq<char>| id_set(n).contains(x) <==> id_set(old_ids).insert(id_view).contains(x) by {
                    if id_set(n).contains(x) {
                        let k = choose|k: int| 0 <= k < n.len() && n[k]@ == x;
                        if k < i {
                            assert(old_ids[k]@ == x);
                        } else if k > i {
                            assert(old_ids[k - 1]@ == x);
                        }
                    }
                    if id_set(old_ids).contains(x) {
                        let k = choose|k: int| 0 <= k < old_ids.len() && old_ids[k]@ == x;
                        if k < i {
                            assert(n[k]@ == x);
                        } else {
                            assert(n[k + 1]@ == x);
                        }
                    }
                    if x == id_view {
                        assert(n[i as int]@ == x);
                    }
                }
                assert(id_set(n) =~= id_set(old_ids).insert(id_view));
            }
        },
        UsbEvent::Detached { device_id } => {
            let mut i: usize = 0;
            let mut found = false;
            while !found && i < known.len()
                invariant
                    known@ == old_ids,
                    i <= old_ids.len(),
                    forall|k: int| 0 <= k < i ==> #[trigger] old_ids[k]@ != device_id@,
                    found ==> i < old_ids.len() && old_ids[i as int]@ == device_id@,
                decreases old_ids.len() - i + (if found { 0int } else { 1int }),
            {
                if compare_strings(&known[i], &device_id) == 0 {
                    found = true;
                } else {
                    i = i + 1;
                }
            }
            if !found {
                assert(id_set(old_ids).remove(device_id@) =~= id_set(old_ids));
                return;
            }
            let ghost id_view = device_id@;
            assert(old_ids[i as int]@ == id_view);
            known.remove(i);
            proof {
                let n = known@;
                assert(n == old_ids.remove(i as int));
                assert forall|a: int, b: int| 0 <= a < b < n.len() implies seq_lt(#[trigger] n[a]@, #[trigger] n[b]@) by {
                    if a < i && b >= i {
                        assert(n[b] == old_ids[b + 1]);
                    } else if a >= i {
                        assert(n[a] == old_ids[a + 1]);
                        assert(n[b] == old_ids[b + 1]);
                    }
                }
                assert forall|x: Seq<char>| id_set(n).contains(x) <==> id_set(old_ids).remove(id_view).contains(x) by {
                    if id_set(n).contains(x) {
                        let k = choose|k: int| 0 <= k < n.len() && n[k]@ == x;
                        if k < i {
                            assert(old_ids[k]@ == x);
                            lemma_seq_lt_irreflexive(x);
                            assert(seq_lt(old_ids[k]@, old_ids[i as int]@));
                        } else {
                            assert(old_ids[k + 1]@ == x);
                            lemma_seq_lt_irreflexive(x);
                            assert(seq_lt(old_ids[i as int]@, old_ids[k + 1]@));
                        }
                    }
                    if id_set(old_ids).remove(id_view).contains(x) {
                        let k = choose|k: int| 0 <= k < old_ids.len() && old_ids[k]@ == x;
                        if k < i {
                            assert(n[k]@ == x);
                        } else {
                            assert(k != i);
                            assert(n[k - 1]@ == x);
                        }
                    }
                }
                assert(id_set(n) =~= id_set(old_ids).remove(id_view));
            }
        },
    }
}

/// Folds `events`, in order, into the strictly sorted list of ids attached
/// afterwards, starting from none attached.
pub fn fold_usb_events(events: &[UsbEvent]) -> (devices: Vec<DiscoveredDevice>)
    ensures
        strictly_sorted(device_ids(devices@)),
        id_set(device_ids(devices@)) == fold_events(Set::empty(), events@),
{
    let mut known: Vec<String> = Vec::new();
    assert(id_set(known@) =~= Set::<Seq<char>>::empty());
    let mut i: usize = 0;
    while i < events.len()
        invariant
            i <= events@.len(),
            strictly_sorted(known@),
            id_set(known@) == fold_events(Set::empty(), events@.take(i as int)),
        decreases events@.len() - i,
    {
        apply_usb_event(&mut known, events[i].clone());
        assert(events@.take(i + 1).drop_last() == events@.take(i as int));
        i = i + 1;
    }
    assert(events@.take(events@.len() as int) == events@);
    let mut devices: Vec<DiscoveredDevice> = Vec::new();
    let mut j: usize = 0;
    while j < known.len()
        invariant
            j <= known@.len(),
            devices@.len() == j,
            device_ids(devices@) == known@.take(j as int),
        decreases known@.len() - j,
    {
        let ghost before = devices@;
        devices.push(DiscoveredDevice { id: known[j].clone() });
        assert forall|k: int| 0 <= k < j + 1 implies #[trigger] device_ids(devices@)[k] == known@.take(j + 1)[k] by {
            if k < j {
                assert(devices@[k] == before[k]);
                assert(device_ids(before)[k] == known@[k]);
            }
        }
        assert(device_ids(devices@) =~= known@.take(j + 1));
        j = j + 1;
    }
    assert(known@.take(known@.len() as int) == known@);
    devices
}

/// The ids of a list of devices, in order.
pub open spec fn device_ids(devices: Seq<DiscoveredDevice>) -> Seq<String> {
    devices.map_values(|d: DiscoveredDevice| d.id)
}

/// Polls `source` once and folds its attach/detach events into the set of
/// currently USB-attached devices, sorted by id. A charge-only cable never produces an
/// attach event, so it yields the same empty result as no device at all.
pub fn discover<S: UsbAttachSource>(source: &mut S) -> (devices: Vec<DiscoveredDevice>)
    ensures
        strictly_sorted(device_ids(devices@)),
        final(source).keeps_record() == old(source).keeps_record(),
        exists|events: Seq<UsbEvent>|
            {
                &&& old(source).may_report(events)
                &&& old(source).keeps_record() ==> final(source).polls() == old(source).polls().push(events)
                &&& id_set(device_ids(devices@)) == fold_events(Set::empty(), events)
            },
{
    let events = source.poll_events();
    let devices = fold_usb_events(events.as_slice());
    assert(id_set(device_ids(devices@)) == fold_events(Set::empty(), events@));
    devices
}

/// Whether `id` is among `ids`.
pub fn contains_id(ids: &Vec<String>, id: &String) -> (r: bool)
    ensures
        r == id_set(ids@).contains(id@),
{
    let mut i: usize = 0;
    while i < ids.len()
        invariant
            i <= ids@.len(),
            forall|k: int| 0 <= k < i ==> ids@[k]@ != id@,
        decreases ids@.len() - i,
    {
        if crate::text::str_equal(ids[i].as_str(), id.as_str()) {
            return true;
        }
        i = i + 1;
    }
    false
}

/// `ids` keeping those not in `others`, in order.
pub open spec fn ids_not_in(ids: Seq<String>, others: Set<Seq<char>>) -> Seq<String>
    decreases ids.len(),
{
    if ids.len() == 0 {
        seq![]
    } else {
        let rest = ids_not_in(ids.drop_last(), others);
        if others.contains(ids.last()@) {
            rest
        } else {
            rest.push(ids.last())
        }
    }
}

/// An attach event for each id, in order.
pub open spec fn attach_each(ids: Seq<String>) -> Seq<UsbEvent> {
    ids.map_values(|id: String| UsbEvent::Attached { device_id: id })
}

/// A detach event for each id, in order.
pub open spec fn detach_each(ids: Seq<String>) -> Seq<UsbEvent> {
    ids.map_values(|id: String| UsbEvent::Detached { device_id: id })
}

/// The events that take the attached set from `known` to `current`: an
/// attach for each current id not known, then a detach for each known id no
/// longer current, each group in id order.
pub open spec fn spec_poll_events(known: Seq<String>, current: Seq<String>) -> Seq<UsbEvent> {
    attach_each(ids_not_in(current, id_set(known))) + detach_each(ids_not_in(known, id_set(current)))
}

fn ids_not_in_of(ids: &Vec<String>, others: &Vec<String>) -> (r: Vec<String>)
    ensures
        r@ == ids_not_in(ids@, id_set(others@)),
{
    let mut r: Vec<String> = Vec::new();
    let mut i: usize = 0;
    while i < ids.len()
        invariant
            i <= ids@.len(),
            r@ == ids_not_in(ids@.take(i as int), id_set(others@)),
        decreases ids@.len() - i,
    {
        assert(ids@.take(i + 1).drop_last() == ids@.take(i as int));
        if !contains_id(others, &ids[i]) {
            r.push(ids[i].clone());
        }
        i = i + 1;
    }
    assert(ids@.take(ids@.len() as int) == ids@);
    r
}

/// The strictly sorted set of the ids `udids` (duplicates dropped).
pub fn sorted_id_set(udids: Vec<String>) -> (ids: Vec<String>)
    ensures
        strictly_sorted(ids@),
        id_set(ids@) == id_set(udids@),
{
    let mut ids: Vec<String> = Vec::new();
    assert(id_set(ids@) =~= id_set(udids@.take(0)));
    let mut i: usize = 0;
    while i < udids.len()
        invariant
            i <= udids@.len(),
            strictly_sorted(ids@),
            id_set(ids@) == id_set(udids@.take(i as int)),
        decreases udids@.len() - i,
    {
        let ghost before = ids@;
        apply_usb_event(&mut ids, UsbEvent::Attached { device_id: udids[i].clone() });
        assert(id_set(udids@.take(i + 1)) =~= id_set(udids@.take(i as int)).insert(udids@[i as int]@)) by {
            assert forall|s: Seq<char>| id_set(udids@.take(i + 1)).contains(s) implies
                id_set(udids@.take(i as int)).insert(udids@[i as int]@).contains(s) by {
                let k = choose|k: int| 0 <= k < udids@.take(i + 1).len() && #[trigger] udids@.take(i + 1)[k]@ == s;
                if k < i {
                    assert(udids@.take(i as int)[k]@ == s);
                }
            }
            assert forall|s: Seq<char>| id_set(udids@.take(i as int)).insert(udids@[i as int]@).contains(s) implies
                id_set(udids@.take(i + 1)).contains(s) by {
                if s == udids@[i as int]@ {
                    assert(udids@.take(i + 1)[i as int]@ == s);
                } else {
                    let k = choose|k: int| 0 <= k < udids@.take(i as int).len() && #[trigger] udids@.take(i as int)[k]@ == s;
                    assert(udids@.take(i + 1)[k]@ == s);
                }
            }
        }
        i = i + 1;
    }
    assert(udids@.take(udids@.len() as int) == udids@);
    ids
}

/// Turns the ids the usbmuxd client lists now, against the ids known from
/// the previous poll, into attach/detach events: the newly listed ids
/// attach and the no longer listed ones detach, each in id order. Returns
/// the events and the new known set.
pub fn poll_events_from(known: &Vec<String>, udids: Vec<String>) -> (r: (Vec<UsbEvent>, Vec<String>))
    requires
        strictly_sorted(known@),
    ensures
        strictly_sorted(r.1@),
        id_set(r.1@) == id_set(udids@),
        r.0@ == spec_poll_events(known@, r.1@),
{
    let current = sorted_id_set(udids);
    let attached = ids_not_in_of(&current, known);
    let detached = ids_not_in_of(known, &current);
    let mut events: Vec<UsbEvent> = Vec::new();
    let mut i: usize = 0;
    while i < attached.len()
        invariant
            i <= attached@.len(),
            events@ == attach_each(attached@.take(i as int)),
        decreases attached@.len() - i,
    {
        events.push(UsbEvent::Attached { device_id: attached[i].clone() });
        assert(attach_each(attached@.take(i + 1)) =~= attach_each(attached@.take(i as int)).push(
            UsbEvent::Attached { device_id: attached@[i as int] },
        ));
        i = i + 1;
    }
    assert(attached@.take(attached@.len() as int) == attached@);
    let ghost attach_part = events@;
    let mut j: usize = 0;
    while j < detached.len()
        invariant
            j <= detached@.len(),
            events@ == attach_part + detach_each(detached@.take(j as int)),
        decreases detached@.len() - j,
    {
        events.push(UsbEvent::Detached { device_id: detached[j].clone() });
        assert(detach_each(detached@.take(j + 1)) =~= detach_each(detached@.take(j as int)).push(
            UsbEvent::Detached { device_id: detached@[j as int] },
        ));
        assert(events@ =~= attach_part + detach_each(detached@.take(j + 1)));
        j = j + 1;
    }
    assert(detached@.take(detached@.len() as int) == detached@);
    (events, current)
}

proof fn lemma_fold_append(known: Set<Seq<char>>, xs: Seq<UsbEvent>, ys: Seq<UsbEvent>)
    ensures
        fold_events(known, xs + ys) == fold_events(fold_events(known, xs), ys),
    decreases ys.len(),
{
    if ys.len() == 0 {
        assert(xs + ys =~= xs);
    } else {
        assert((xs + ys).drop_last() =~= xs + ys.drop_last());
        assert((xs + ys).last() == ys.last());
        lemma_fold_append(known, xs, ys.drop_last());
    }
}

proof fn lemma_id_set_push(ids: Seq<String>, id: String)
    ensures
        id_set(ids.push(id)) == id_set(ids).insert(id@),
{
    assert forall|s: Seq<char>| #[trigger] id_set(ids.push(id)).contains(s) == id_set(ids).insert(id@).contains(s) by {
        if id_set(ids.push(id)).contains(s) {
            let k = choose|k: int| 0 <= k < ids.push(id).len() && #[trigger] ids.push(id)[k]@ == s;
            if k < ids.len() {
                assert(ids[k]@ == s);
            }
        }
        if id_set(ids).contains(s) {
            let k = choose|k: int| 0 <= k < ids.len() && #[trigger] ids[k]@ == s;
            assert(ids.push(id)[k]@ == s);
        }
        if s == id@ {
            assert(ids.push(id)[ids.len() as int]@ == s);
        }
    }
    assert(id_set(ids.push(id)) =~= id_set(ids).insert(id@));
}

proof fn lemma_fold_attach_each(known: Set<Seq<char>>, ids: Seq<String>)
    ensures
        fold_events(known, attach_each(ids)) == known.union(id_set(ids)),
    decreases ids.len(),
{
    if ids.len() == 0 {
        assert(id_set(ids) =~= Set::<Seq<char>>::empty());
        assert(known.union(id_set(ids)) =~= known);
    } else {
        assert(attach_each(ids).drop_last() =~= attach_each(ids.drop_last()));
        lemma_fold_attach_each(known, ids.drop_last());
        assert(ids.drop_last().push(ids.last()) == ids);
        lemma_id_set_push(ids.drop_last(), ids.last());
        assert(known.union(id_set(ids)) =~= known.union(id_set(ids.drop_last())).insert(ids.last()@));
    }
}

proof fn lemma_fold_detach_each(known: Set<Seq<char>>, ids: Seq<String>)
    ensures
        fold_events(known, detach_each(ids)) == known.difference(id_set(ids)),
    decreases ids.len(),
{
    if ids.len() == 0 {
        assert(id_set(ids) =~= Set::<Seq<char>>::empty());
        assert(known.difference(id_set(ids)) =~= known);
    } else {
        assert(detach_each(ids).drop_last() =~= detach_each(ids.drop_last()));
        lemma_fold_detach_each(known, ids.drop_last());
        assert(ids.drop_last().push(ids.last()) == ids);
        lemma_id_set_push(ids.drop_last(), ids.last());
        assert(known.difference(id_set(ids)) =~= known.difference(id_set(ids.drop_last())).remove(ids.last()@));
    }
}

proof fn lemma_ids_not_in(ids: Seq<String>, others: Set<Seq<char>>)
    ensures
        id_set(ids_not_in(ids, others)) == id_set(ids).difference(others),
    decreases ids.len(),
{
    if ids.len() == 0 {
        assert(id_set(ids_not_in(ids, others)) =~= Set::<Seq<char>>::empty());
        assert(id_set(ids) =~= Set::<Seq<char>>::empty());
        assert(id_set(ids).difference(others) =~= Set::<Seq<char>>::empty());
    } else {
        lemma_ids_not_in(ids.drop_last(), others);
        assert(ids.drop_last().push(ids.last()) == ids);
        lemma_id_set_push(ids.drop_last(), ids.last());
        let rest = ids_not_in(ids.drop_last(), others);
        if !others.contains(ids.last()@) {
            lemma_id_set_push(rest, ids.last());
        }
        assert(id_set(ids_not_in(ids, others)) =~= id_set(ids).difference(others));
    }
}

/// Folding one poll's events into the previously known set gives exactly
/// the set listed now: the events account for every attach and detach.
pub proof fn lemma_poll_events_reach_current(known: Seq<String>, current: Seq<String>)
    ensures
        fold_events(id_set(known), spec_poll_events(known, current)) == id_set(current),
{
    let k = id_set(known);
    let c = id_set(current);
    let a = ids_not_in(current, k);
    let d = ids_not_in(known, c);
    lemma_fold_append(k, attach_each(a), detach_each(d));
    lemma_fold_attach_each(k, a);
    lemma_fold_detach_each(k.union(id_set(a)), d);
    lemma_ids_not_in(current, k);
    lemma_ids_not_in(known, c);
    assert(k.union(c.difference(k)).difference(k.difference(c)) =~= c);
}

} // verus!
