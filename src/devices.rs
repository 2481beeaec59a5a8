use vstd::prelude::*;
use vstd::string::*;

use crate::plist_value::{dict_get_string, lookup_string, PlistValue};

verus! {

/// How a device reaches the transport multiplexer.
#[derive(Debug, Clone, Copy, PartialEq, Eq, Structural)]
pub enum ConnectionKind {
    Usb,
    Network,
    Unknown,
}

/// A device as plain values.
pub struct DeviceView {
    pub device_id: u32,
    pub udid: Seq<char>,
    pub name: Seq<char>,
    pub connection: ConnectionKind,
}

/// An attached device: the id the multiplexer gave this connection, the
/// device's UDID, its human-readable name (empty when it could not be read)
/// and how it is connected.
#[derive(Debug, Clone)]
pub struct Device {
    pub device_id: u32,
    pub udid: String,
    pub name: String,
    pub connection: ConnectionKind,
}

impl View for Device {
    type V = DeviceView;

    open spec fn view(&self) -> DeviceView {
        DeviceView {
            device_id: self.device_id,
            udid: self.udid@,
            name: self.name@,
            connection: self.connection,
        }
    }
}

/// The label under which a device is listed: its link kind in brackets, then its name.
pub open spec fn device_label(d: DeviceView) -> Seq<char> {
    (match d.connection {
        ConnectionKind::Usb => "[USB] "@,
        ConnectionKind::Network => "[WiFi] "@,
        ConnectionKind::Unknown => "[Unknown] "@,
    }) + d.name
}


/// The name that a device reports in its device-info dictionary
/// (`DeviceName`), or empty when the answer holds none.
pub open spec fn reported_name(info: PlistValue) -> Seq<char> {
    match info {
        PlistValue::Dictionary(d) => match lookup_string(d@, "DeviceName"@) {
            Some(n) => n,
            None => Seq::empty(),
        },
        _ => Seq::empty(),
    }
}

/// Reads the device name out of a device-info answer; an answer without one
/// gives an empty name rather than an error.
pub fn name_from_device_info(info: &PlistValue) -> (r: String)
    ensures
        r@ == reported_name(*info),
{
    match info {
        PlistValue::Dictionary(d) => match dict_get_string(d, "DeviceName") {
            Some(n) => n.clone(),
            None => String::new(),
        },
        _ => String::new(),
    }
}

impl Device {
    /// A device discovered on the multiplexer. `resolved_name` is the name read
    /// from the device, or `None` where reading it failed: the device is then
    /// kept, with an empty name.
    pub fn new(device_id: u32, udid: String, connection: ConnectionKind, resolved_name: Option<String>) -> (r: Self)
        ensures
            r@.device_id == device_id,
            r@.udid == udid@,
            r@.connection == connection,
            r@.name == (match resolved_name {
                Some(n) => n@,
                None => Seq::<char>::empty(),
            }),
    {
        let name = match resolved_name {
            Some(n) => n,
            None => String::new(),
        };
        Device { device_id, udid, name, connection }
    }

    /// The label under which the device is listed, such as `[USB] My Phone`.
    pub fn label(&self) -> (r: String)
        ensures
            r@ == device_label(self@),
    {
        let mut s = match self.connection {
            ConnectionKind::Usb => "[USB] ".to_owned(),
            ConnectionKind::Network => "[WiFi] ".to_owned(),
            ConnectionKind::Unknown => "[Unknown] ".to_owned(),
        };
        s.append(self.name.as_str());
        s
    }
}

} // verus!

verus! {

/// The id the multiplexer gives a placeholder entry; such an entry is never
/// selected on arrival.
pub const PLACEHOLDER_DEVICE_ID: u32 = 0xffff_ffff;

/// Whether some device of `s` has the id `id`.
pub open spec fn has_id(s: Seq<DeviceView>, id: u32) -> bool {
    exists|i: int| 0 <= i < s.len() && #[trigger] s[i].device_id == id
}

/// No two devices of `s` share an id.
pub open spec fn ids_unique(s: Seq<DeviceView>) -> bool {
    forall|i: int, j: int|
        0 <= i < s.len() && 0 <= j < s.len() && #[trigger] s[i].device_id == #[trigger] s[j].device_id
            ==> i == j
}

/// The index in `s` of the device with id `id` (meaningful where `has_id(s, id)`).
pub open spec fn index_of(s: Seq<DeviceView>, id: u32) -> int {
    choose|i: int| 0 <= i < s.len() && #[trigger] s[i].device_id == id
}

/// `i` is the first USB device of `s`.
pub open spec fn is_first_usb(s: Seq<DeviceView>, i: int) -> bool {
    &&& 0 <= i < s.len()
    &&& s[i].connection == ConnectionKind::Usb
    &&& forall|j: int| 0 <= j < i ==> #[trigger] s[j].connection != ConnectionKind::Usb
}

/// The device selected when the selection has to be chosen anew: the first
/// USB device, else the first device, else none.
pub open spec fn default_choice(s: Seq<DeviceView>) -> Option<u32> {
    if exists|i: int| is_first_usb(s, i) {
        Some(s[choose|i: int| is_first_usb(s, i)].device_id)
    } else if s.len() > 0 {
        Some(s[0].device_id)
    } else {
        None
    }
}

/// The active devices after `d` arrives: a device whose id is already listed
/// is not listed twice.
pub open spec fn after_connect(s: Seq<DeviceView>, d: DeviceView) -> Seq<DeviceView> {
    if has_id(s, d.device_id) {
        s
    } else {
        s.push(d)
    }
}

/// The selection after `d` arrives. A new device is selected when nothing
/// was, unless it is the placeholder; it also takes the selection over from
/// the selected device when both are the same phone and only the new one is
/// on USB.
pub open spec fn selected_after_connect(s: Seq<DeviceView>, sel: Option<u32>, d: DeviceView) -> Option<u32> {
    if has_id(s, d.device_id) {
        sel
    } else {
        match sel {
            None => if d.device_id != PLACEHOLDER_DEVICE_ID {
                Some(d.device_id)
            } else {
                None
            },
            Some(id) => {
                let cur = s[index_of(s, id)];
                if cur.udid == d.udid && cur.connection != ConnectionKind::Usb && d.connection
                    == ConnectionKind::Usb {
                    Some(d.device_id)
                } else {
                    sel
                }
            },
        }
    }
}

/// The active devices after the device with id `id` leaves; nothing changes
/// when no device has that id.
pub open spec fn after_disconnect(s: Seq<DeviceView>, id: u32) -> Seq<DeviceView> {
    if has_id(s, id) {
        s.remove(index_of(s, id))
    } else {
        s
    }
}

/// The selection after the device with id `id` leaves: chosen anew when it
/// was that device, kept otherwise.
pub open spec fn selected_after_disconnect(s: Seq<DeviceView>, sel: Option<u32>, id: u32) -> Option<u32> {
    if sel == Some(id) {
        default_choice(after_disconnect(s, id))
    } else {
        sel
    }
}


/// Exactly one device of `s` has the id `id`.
pub open spec fn listed_once(s: Seq<DeviceView>, id: u32) -> bool {
    exists|i: int|
        0 <= i < s.len() && #[trigger] s[i].device_id == id && forall|j: int|
            0 <= j < s.len() && #[trigger] s[j].device_id == id ==> j == i
}

/// Two arrivals that carry the same device id leave exactly one entry with
/// that id in the set of active devices, and the ids stay unique.
pub proof fn lemma_duplicate_arrival_listed_once(s: Seq<DeviceView>, d1: DeviceView, d2: DeviceView)
    requires
        ids_unique(s),
        d1.device_id == d2.device_id,
    ensures
        ids_unique(after_connect(after_connect(s, d1), d2)),
        listed_once(after_connect(after_connect(s, d1), d2), d1.device_id),
{
    let t = after_connect(s, d1);
    if !has_id(s, d1.device_id) {
        lemma_push_keeps(s, d1);
    }
    assert(has_id(t, d1.device_id));
    assert(after_connect(t, d2) == t);
    let i = index_of(t, d1.device_id);
    lemma_unique_index(t, i);
    assert(t[i].device_id == d1.device_id);
}

/// The departure of a device id that is not listed changes neither the
/// active devices nor the selection.
pub proof fn lemma_unknown_departure_is_noop(s: Seq<DeviceView>, sel: Option<u32>, id: u32)
    requires
        ids_unique(s),
        match sel {
            Some(x) => has_id(s, x),
            None => true,
        },
        !has_id(s, id),
    ensures
        after_disconnect(s, id) == s,
        selected_after_disconnect(s, sel, id) == sel,
{
}

/// The devices currently attached, each listed once by its multiplexer id,
/// and the one selected for installation.
#[derive(Debug)]
pub struct DeviceSet {
    devices: Vec<Device>,
    selected: Option<u32>,
}

proof fn lemma_unique_index(s: Seq<DeviceView>, i: int)
    requires
        ids_unique(s),
        0 <= i < s.len(),
    ensures
        has_id(s, s[i].device_id),
        index_of(s, s[i].device_id) == i,
{
    let id = s[i].device_id;
    assert(s[i].device_id == id);
}


proof fn lemma_remove_keeps(s: Seq<DeviceView>, i: int)
    requires
        ids_unique(s),
        0 <= i < s.len(),
    ensures
        ids_unique(s.remove(i)),
        forall|id: u32| id != s[i].device_id && has_id(s, id) ==> #[trigger] has_id(s.remove(i), id),
        !has_id(s.remove(i), s[i].device_id),
{
    let t = s.remove(i);
    assert forall|x: int| 0 <= x < t.len() implies #[trigger] t[x] == s[if x < i {
        x
    } else {
        x + 1
    }] by {}
    assert forall|x: int, y: int|
        0 <= x < t.len() && 0 <= y < t.len() && #[trigger] t[x].device_id == #[trigger] t[y].device_id
        implies x == y by {
        let xs = if x < i { x } else { x + 1 };
        let ys = if y < i { y } else { y + 1 };
        assert(s[xs].device_id == s[ys].device_id);
    }
    assert forall|id: u32| id != s[i].device_id && has_id(s, id) implies #[trigger] has_id(t, id) by {
        let j = choose|j: int| 0 <= j < s.len() && #[trigger] s[j].device_id == id;
        let jt = if j < i { j } else { j - 1 };
        assert(t[jt].device_id == id);
    }
    if has_id(t, s[i].device_id) {
        let j = choose|j: int| 0 <= j < t.len() && #[trigger] t[j].device_id == s[i].device_id;
        let js = if j < i { j } else { j + 1 };
        assert(s[js].device_id == s[i].device_id);
    }
}

proof fn lemma_push_keeps(s: Seq<DeviceView>, d: DeviceView)
    requires
        ids_unique(s),
        !has_id(s, d.device_id),
    ensures
        ids_unique(s.push(d)),
        forall|id: u32| has_id(s, id) ==> #[trigger] has_id(s.push(d), id),
        has_id(s.push(d), d.device_id),
        forall|id: u32| has_id(s, id) ==> #[trigger] index_of(s.push(d), id) == index_of(s, id),
{
    let t = s.push(d);
    let n = s.len() as int;
    assert forall|x: int, y: int|
        0 <= x < t.len() && 0 <= y < t.len() && #[trigger] t[x].device_id == #[trigger] t[y].device_id
        implies x == y by {
        if x < n && y == n {
            assert(s[x].device_id == d.device_id);
        } else if y < n && x == n {
            assert(s[y].device_id == d.device_id);
        } else if x < n && y < n {
            assert(s[x].device_id == s[y].device_id);
        }
    }
    assert forall|id: u32| has_id(s, id) implies #[trigger] has_id(t, id) by {
        let j = choose|j: int| 0 <= j < s.len() && #[trigger] s[j].device_id == id;
        assert(t[j].device_id == id);
    }
    assert(t[n].device_id == d.device_id);
    assert forall|id: u32| has_id(s, id) implies #[trigger] index_of(t, id) == index_of(s, id) by {
        let j = index_of(s, id);
        assert(t[j].device_id == id);
        lemma_unique_index(t, j);
    }
}

impl DeviceSet {
    pub closed spec fn entries(&self) -> Seq<DeviceView> {
        self.devices@.map_values(|d: Device| d@)
    }

    pub closed spec fn selection(&self) -> Option<u32> {
        self.selected
    }

    /// Ids are unique and the selection, if any, is an attached device.
    pub closed spec fn wf(&self) -> bool {
        &&& ids_unique(self.entries())
        &&& match self.selected {
            Some(id) => has_id(self.entries(), id),
            None => true,
        }
    }

    /// No device attached, nothing selected.
    pub fn new() -> (r: Self)
        ensures
            r.wf(),
            r.entries() == Seq::<DeviceView>::empty(),
            r.selection() is None,
    {
        let r = DeviceSet { devices: Vec::new(), selected: None };
        assert(r.entries() =~= Seq::<DeviceView>::empty());
        r
    }

    /// The attached devices, in order of arrival.
    pub fn devices(&self) -> (r: &Vec<Device>)
        ensures
            r@.map_values(|d: Device| d@) == self.entries(),
    {
        &self.devices
    }

    /// The id of the selected device, if any.
    pub fn selected_id(&self) -> (r: Option<u32>)
        ensures
            r == self.selection(),
    {
        self.selected
    }

    /// The selected device, if any.
    pub fn selected_device(&self) -> (r: Option<&Device>)
        requires
            self.wf(),
        ensures
            match self.selection() {
                Some(id) => r is Some && r->0@ == self.entries()[index_of(self.entries(), id)]
                    && r->0@.device_id == id,
                None => r is None,
            },
    {
        match self.selected {
            Some(id) => match self.position(id) {
                Some(i) => {
                    proof {
                        assert(self.entries()[i as int] == self.devices@[i as int]@);
                        lemma_unique_index(self.entries(), i as int);
                    }
                    Some(&self.devices[i])
                },
                None => None,
            },
            None => None,
        }
    }


    /// Records the arrival of `device`. A device whose id is already listed
    /// is not listed again and changes nothing.
    pub fn connect(&mut self, device: Device)
        requires
            old(self).wf(),
        ensures
            final(self).wf(),
            final(self).entries() == after_connect(old(self).entries(), device@),
            final(self).selection() == selected_after_connect(
                old(self).entries(),
                old(self).selection(),
                device@,
            ),
    {
        let id = device.device_id;
        let ghost d = device@;
        match self.position(id) {
            Some(_) => {},
            None => {
                let new_sel = match self.selected {
                    None => if id != PLACEHOLDER_DEVICE_ID {
                        Some(id)
                    } else {
                        None
                    },
                    Some(sid) => match self.position(sid) {
                        Some(j) => {
                            proof {
                                assert(self.entries()[j as int] == self.devices@[j as int]@);
                                lemma_unique_index(self.entries(), j as int);
                            }
                            let cur = &self.devices[j];
                            if cur.udid.eq(&device.udid) && cur.connection != ConnectionKind::Usb
                                && device.connection == ConnectionKind::Usb {
                                Some(id)
                            } else {
                                Some(sid)
                            }
                        },
                        None => Some(sid),
                    },
                };
                proof {
                    lemma_push_keeps(self.entries(), d);
                }
                let ghost before = self.entries();
                self.devices.push(device);
                self.selected = new_sel;
                assert(self.entries() =~= before.push(d));
            },
        }
    }

    /// Records that the device with id `id` left. An id that is not listed
    /// changes nothing; when the selected device leaves, the selection is
    /// chosen anew among those that stay.
    pub fn disconnect(&mut self, id: u32)
        requires
            old(self).wf(),
        ensures
            final(self).wf(),
            final(self).entries() == after_disconnect(old(self).entries(), id),
            final(self).selection() == selected_after_disconnect(
                old(self).entries(),
                old(self).selection(),
                id,
            ),
    {
        match self.position(id) {
            Some(i) => {
                proof {
                    assert(self.entries()[i as int] == self.devices@[i as int]@);
                    lemma_unique_index(self.entries(), i as int);
                    lemma_remove_keeps(self.entries(), i as int);
                }
                let ghost before = self.entries();
                let _ = self.devices.remove(i);
                assert(self.entries() =~= before.remove(i as int));
            },
            None => {},
        }
        let was_selected = match self.selected {
            Some(sid) => sid == id,
            None => false,
        };
        if was_selected {
            self.selected = self.default_choice();
        }
    }


    /// Selects the first device listed under `label` (see `Device::label`);
    /// selects nothing when none is.
    pub fn select_by_label(&mut self, label: &str)
        requires
            old(self).wf(),
        ensures
            final(self).wf(),
            final(self).entries() == old(self).entries(),
            match final(self).selection() {
                Some(id) => exists|i: int|
                    0 <= i < old(self).entries().len() && device_label(old(self).entries()[i])
                        == label@ && old(self).entries()[i].device_id == id && forall|j: int|
                        0 <= j < i ==> device_label(#[trigger] old(self).entries()[j]) != label@,
                None => forall|j: int|
                    0 <= j < old(self).entries().len() ==> device_label(#[trigger] old(self).entries()[j])
                        != label@,
            },
    {
        let want = label.to_owned();
        let ghost s = self.entries();
        let mut i: usize = 0;
        while i < self.devices.len()
            invariant
                s == self.entries(),
                s == old(self).entries(),
                ids_unique(s),
                i <= self.devices@.len(),
                s.len() == self.devices@.len(),
                want@ == label@,
                forall|j: int| 0 <= j < i ==> device_label(#[trigger] s[j]) != label@,
            decreases self.devices@.len() - i,
        {
            assert(s[i as int] == self.devices@[i as int]@);
            let l = self.devices[i].label();
            if l.eq(&want) {
                let id = self.devices[i].device_id;
                proof {
                    lemma_unique_index(s, i as int);
                }
                self.selected = Some(id);
                assert(self.entries() == s);
                return;
            }
            i = i + 1;
        }
        self.selected = None;
    }

    /// The first USB device, else the first device, else none.
    fn default_choice(&self) -> (r: Option<u32>)
        requires
            ids_unique(self.entries()),
        ensures
            r == default_choice(self.entries()),
            match r {
                Some(id) => has_id(self.entries(), id),
                None => true,
            },
    {
        let ghost s = self.entries();
        let mut i: usize = 0;
        while i < self.devices.len()
            invariant
                i <= self.devices@.len(),
                s == self.entries(),
                ids_unique(s),
                s.len() == self.devices@.len(),
                forall|j: int| 0 <= j < i ==> #[trigger] s[j].connection != ConnectionKind::Usb,
            decreases self.devices@.len() - i,
        {
            assert(s[i as int] == self.devices@[i as int]@);
            if self.devices[i].connection == ConnectionKind::Usb {
                assert(is_first_usb(s, i as int));
                proof {
                    let k = choose|k: int| is_first_usb(s, k);
                    if k < i {
                    } else if k > i {
                        assert(s[i as int].connection != ConnectionKind::Usb);
                    }
                    lemma_unique_index(s, i as int);
                }
                return Some(self.devices[i].device_id);
            }
            i = i + 1;
        }
        assert(!exists|k: int| is_first_usb(s, k));
        if self.devices.len() > 0 {
            assert(s[0] == self.devices@[0]@);
            proof {
                lemma_unique_index(s, 0);
            }
            Some(self.devices[0].device_id)
        } else {
            None
        }
    }

    fn position(&self, id: u32) -> (r: Option<usize>)
        ensures
            self.entries().len() == self.devices@.len(),
            match r {
                Some(i) => i < self.devices@.len() && self.entries()[i as int].device_id == id,
                None => !has_id(self.entries(), id),
            },
    {
        let mut i: usize = 0;
        while i < self.devices.len()
            invariant
                i <= self.devices@.len(),
                self.entries().len() == self.devices@.len(),
                forall|j: int| 0 <= j < i ==> #[trigger] self.entries()[j].device_id != id,
            decreases self.devices@.len() - i,
        {
            assert(self.entries()[i as int] == self.devices@[i as int]@);
            if self.devices[i].device_id == id {
                return Some(i);
            }
            i = i + 1;
        }
        None
    }
}

} // verus!
