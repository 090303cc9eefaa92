//! The house: an identity-keyed collection of rooms, and the report
//! generator. The generator walks the hierarchy and, for every device, asks a
//! caller-supplied provider for its status text; the provider may own the
//! devices it reports on, borrow them, or recognize none of them (it then
//! falls back to the registry entry's own description), so report generation
//! is total.

use crate::device::{device_desc, socket_desc, thermo_desc, Device, SmartSocket, SmartThermometer};
use crate::ids::{fresh_id, id_seq, id_text};
use crate::room::{room_desc, Room};
use vstd::prelude::*;

verus! {

/// A house: identifier, display name, and the rooms it owns.
///
/// The rooms stand in insertion order; `wf` says their identifiers are
/// pairwise distinct, so the sequence behaves as a keyed map.
#[derive(Clone)]
pub struct SmartHome {
    pub id: u128,
    pub name: String,
    pub rooms: Vec<Room>,
}

/// The room identifiers of `s` are pairwise distinct.
pub open spec fn room_ids_distinct(s: Seq<Room>) -> bool {
    forall|i: int, j: int| 0 <= i < j < s.len() ==> s[i].id != s[j].id
}

/// Some room of `s` carries the identifier `id`.
pub open spec fn has_room(s: Seq<Room>, id: u128) -> bool {
    exists|i: int| 0 <= i < s.len() && s[i].id == id
}

/// The position of the room of `s` that carries `id` (meaningful when
/// `has_room(s, id)` holds; unique when the identifiers are distinct).
pub open spec fn room_index(s: Seq<Room>, id: u128) -> int {
    choose|i: int| 0 <= i < s.len() && s[i].id == id
}

/// Keyed insertion: a room whose identifier is already present replaces the
/// prior entry; otherwise the room is appended.
pub open spec fn insert_room(s: Seq<Room>, r: Room) -> Seq<Room> {
    if has_room(s, r.id) {
        s.update(room_index(s, r.id), r)
    } else {
        s.push(r)
    }
}

/// Two positions of a sequence with pairwise distinct room identifiers carry
/// different identifiers.
pub proof fn lemma_room_distinct_at(s: Seq<Room>, i: int, j: int)
    requires
        room_ids_distinct(s),
        0 <= i < j < s.len(),
    ensures
        s[i].id != s[j].id,
{
}

/// Keyed insertion keeps the room identifiers pairwise distinct.
pub proof fn lemma_insert_room_distinct(s: Seq<Room>, r: Room)
    requires
        room_ids_distinct(s),
    ensures
        room_ids_distinct(insert_room(s, r)),
{
    if has_room(s, r.id) {
        let j = room_index(s, r.id);
        assert(0 <= j < s.len() && s[j].id == r.id);
        assert forall|i: int, k: int|
            0 <= i < k < insert_room(s, r).len() implies insert_room(s, r)[i].id != insert_room(
            s,
            r,
        )[k].id by {
            assert(insert_room(s, r)[i].id == s[i].id);
            assert(insert_room(s, r)[k].id == s[k].id);
        }
    } else {
        assert forall|i: int, k: int|
            0 <= i < k < insert_room(s, r).len() implies insert_room(s, r)[i].id != insert_room(
            s,
            r,
        )[k].id by {
            if k < s.len() {
            } else {
                assert(insert_room(s, r)[k].id == r.id);
                assert(s[i].id != r.id) by {
                    if s[i].id == r.id {
                        assert(has_room(s, r.id));
                    }
                }
            }
        }
    }
}

/// Inserting rooms one after the other, in order.
pub open spec fn insert_rooms(s: Seq<Room>, rs: Seq<Room>) -> Seq<Room>
    decreases rs.len(),
{
    if rs.len() == 0 {
        s
    } else {
        insert_rooms(insert_room(s, rs[0]), rs.drop_first())
    }
}

/// Law: adding rooms whose identifiers are pairwise distinct and absent from
/// the house appends them all — the room count grows by exactly the number
/// of rooms added, and the identifiers stay pairwise distinct.
pub proof fn lemma_insert_rooms_count(s: Seq<Room>, rs: Seq<Room>)
    requires
        room_ids_distinct(s),
        room_ids_distinct(rs),
        forall|k: int| 0 <= k < rs.len() ==> !has_room(s, rs[k].id),
    ensures
        insert_rooms(s, rs).len() == s.len() + rs.len(),
        room_ids_distinct(insert_rooms(s, rs)),
    decreases rs.len(),
{
    if rs.len() > 0 {
        let s2 = insert_room(s, rs[0]);
        assert(!has_room(s, rs[0].id));
        assert(s2 == s.push(rs[0]));
        lemma_insert_room_distinct(s, rs[0]);
        let tail = rs.drop_first();
        assert(room_ids_distinct(tail)) by {
            assert forall|i: int, j: int| 0 <= i < j < tail.len() implies tail[i].id
                != tail[j].id by {
                assert(tail[i] == rs[i + 1]);
                assert(tail[j] == rs[j + 1]);
            }
        }
        assert forall|k: int| 0 <= k < tail.len() implies !has_room(s2, tail[k].id) by {
            assert(tail[k] == rs[k + 1]);
            assert(!has_room(s, rs[k + 1].id));
            assert(rs[k + 1].id != rs[0].id);
            if has_room(s2, tail[k].id) {
                let m = room_index(s2, tail[k].id);
                assert(0 <= m < s2.len() && s2[m].id == tail[k].id);
                if m < s.len() {
                    assert(has_room(s, tail[k].id));
                } else {
                    assert(s2[m] == rs[0]);
                }
            }
        }
        lemma_insert_rooms_count(s2, tail);
    }
}

/// Law: an identifier that occurs neither in the house nor among the added
/// rooms is still absent after all of them are added.
pub proof fn lemma_insert_rooms_absent(s: Seq<Room>, rs: Seq<Room>, id: u128)
    requires
        !has_room(s, id),
        forall|k: int| 0 <= k < rs.len() ==> rs[k].id != id,
    ensures
        !has_room(insert_rooms(s, rs), id),
    decreases rs.len(),
{
    if rs.len() > 0 {
        let s2 = insert_room(s, rs[0]);
        assert(!has_room(s2, id)) by {
            if has_room(s2, id) {
                let m = room_index(s2, id);
                assert(0 <= m < s2.len() && s2[m].id == id);
                if has_room(s, rs[0].id) {
                    let j = room_index(s, rs[0].id);
                    if m == j {
                        assert(s2[m] == rs[0]);
                    } else {
                        assert(s2[m] == s[m]);
                        assert(has_room(s, id));
                    }
                } else {
                    if m < s.len() {
                        assert(s2[m] == s[m]);
                        assert(has_room(s, id));
                    } else {
                        assert(s2[m] == rs[0]);
                    }
                }
            }
        }
        let tail = rs.drop_first();
        assert(forall|k: int| 0 <= k < tail.len() ==> tail[k] == rs[k + 1]);
        lemma_insert_rooms_absent(s2, tail, id);
    }
}

/// The description of a house: identifier line, then its name.
pub open spec fn home_desc(h: SmartHome) -> Seq<char> {
    "id: "@ + id_seq(h.id) + "\nHome: "@ + h.name@
}

/// The capability a caller supplies for one report: it maps a room and a
/// device to a status text. `info` is the text as a mathematical function of
/// the provider, the room and the device; `get_device_info` produces exactly
/// that text, so two calls with the same inputs and no intervening mutation
/// agree.
pub trait DeviceInfoProvider: Sized {
    /// The status text this provider reports for `device` as seen in `room`.
    spec fn info(self, room: Room, device: Device) -> Seq<char>;

    /// Produces the status text for `device` as seen in `room`; a pure read,
    /// mutating neither the room nor the device.
    fn get_device_info(&self, room: &Room, device: &Device) -> (r: String)
        ensures
            r@ == self.info(*room, *device),
    ;
}

/// The interface's default status text: the room's description, then the
/// device's own description. A provider that recognizes nothing still yields
/// this generic, non-empty text.
pub open spec fn default_info(room: Room, device: Device) -> Seq<char> {
    room_desc(room) + "\n"@ + device_desc(device) + "\n"@
}

/// Renders the default status text for a device seen in a room.
pub fn default_device_info(room: &Room, device: &Device) -> (r: String)
    ensures
        r@ == default_info(*room, *device),
{
    let mut s = room.describe();
    s.append("\n");
    let d = device.describe();
    s.append(d.as_str());
    s.append("\n");
    proof {
        assert(s@ =~= default_info(*room, *device));
    }
    s
}

/// A provider that owns one socket, independent of the house tree: asked
/// about that socket (matched by identifier), it reports from the owned copy
/// — the live device — and otherwise falls back to the default text.
pub struct OwningDeviceInfoProvider {
    pub socket: SmartSocket,
}

impl DeviceInfoProvider for OwningDeviceInfoProvider {
    open spec fn info(self, room: Room, device: Device) -> Seq<char> {
        match device {
            Device::Socket(s) => if s.id == self.socket.id {
                room_desc(room) + "\n"@ + socket_desc(self.socket) + "\n"@
            } else {
                default_info(room, device)
            },
            Device::Thermometer(_) => default_info(room, device),
        }
    }

    fn get_device_info(&self, room: &Room, device: &Device) -> (r: String) {
        match device {
            Device::Socket(s) => {
                if s.id == self.socket.id {
                    let mut out = room.describe();
                    out.append("\n");
                    let d = self.socket.describe();
                    out.append(d.as_str());
                    out.append("\n");
                    proof {
                        assert(out@ =~= self.info(*room, *device));
                    }
                    out
                } else {
                    default_device_info(room, device)
                }
            },
            Device::Thermometer(_) => default_device_info(room, device),
        }
    }
}

/// A provider that borrows one socket and one thermometer owned by the
/// caller's outer scope: asked about either (matched by identifier), it
/// reports from the borrowed reference — which the borrow checker keeps from
/// outliving the device — and otherwise falls back to the default text.
pub struct BorrowingDeviceInfoProvider<'a, 'b> {
    pub socket: &'a SmartSocket,
    pub thermo: &'b SmartThermometer,
}

impl<'a, 'b> DeviceInfoProvider for BorrowingDeviceInfoProvider<'a, 'b> {
    open spec fn info(self, room: Room, device: Device) -> Seq<char> {
        match device {
            Device::Socket(s) => if s.id == self.socket.id {
                room_desc(room) + "\n"@ + socket_desc(*self.socket) + "\n"@
            } else {
                default_info(room, device)
            },
            Device::Thermometer(t) => if t.id == self.thermo.id {
                room_desc(room) + "\n"@ + thermo_desc(*self.thermo) + "\n"@
            } else {
                default_info(room, device)
            },
        }
    }

    fn get_device_info(&self, room: &Room, device: &Device) -> (r: String) {
        match device {
            Device::Socket(s) => {
                if s.id == self.socket.id {
                    let mut out = room.describe();
                    out.append("\n");
                    let d = self.socket.describe();
                    out.append(d.as_str());
                    out.append("\n");
                    proof {
                        assert(out@ =~= self.info(*room, *device));
                    }
                    out
                } else {
                    default_device_info(room, device)
                }
            },
            Device::Thermometer(t) => {
                if t.id == self.thermo.id {
                    let mut out = room.describe();
                    out.append("\n");
                    let d = self.thermo.describe();
                    out.append(d.as_str());
                    out.append("\n");
                    proof {
                        assert(out@ =~= self.info(*room, *device));
                    }
                    out
                } else {
                    default_device_info(room, device)
                }
            },
        }
    }
}

/// The provider's lines for the devices of one room, in order: one status
/// text per device, each followed by a line break.
pub open spec fn device_lines<T: DeviceInfoProvider>(p: T, room: Room, devs: Seq<Device>) -> Seq<
    char,
>
    decreases devs.len(),
{
    if devs.len() == 0 {
        Seq::empty()
    } else {
        device_lines(p, room, devs.drop_last()) + p.info(room, devs.last()) + "\n"@
    }
}

/// One room's block of the report: its device lines and a blank separator
/// line, or the fixed marker line (and the separator) when it has no devices.
pub open spec fn room_block<T: DeviceInfoProvider>(p: T, room: Room) -> Seq<char> {
    if room.devices@.len() == 0 {
        "No devices in this room"@ + "\n"@ + "\n"@
    } else {
        device_lines(p, room, room.devices@) + "\n"@
    }
}

/// The blocks of the report's rooms, in order.
pub open spec fn room_blocks<T: DeviceInfoProvider>(p: T, rooms: Seq<Room>) -> Seq<char>
    decreases rooms.len(),
{
    if rooms.len() == 0 {
        Seq::empty()
    } else {
        room_blocks(p, rooms.drop_last()) + room_block(p, rooms.last())
    }
}

/// The whole report: the house's own line, then one block per room.
pub open spec fn report_seq<T: DeviceInfoProvider>(p: T, home: SmartHome) -> Seq<char> {
    home_desc(home) + "\n"@ + room_blocks(p, home.rooms@)
}

impl SmartHome {
    /// Validity: the rooms carry pairwise distinct identifiers and are each
    /// valid themselves.
    pub open spec fn wf(self) -> bool {
        &&& room_ids_distinct(self.rooms@)
        &&& forall|i: int| 0 <= i < self.rooms@.len() ==> self.rooms@[i].wf()
    }

    /// Constructs a house with a freshly generated identifier and no rooms.
    pub fn new(name: String) -> (r: SmartHome)
        ensures
            r.name == name,
            r.rooms@.len() == 0,
            r.wf(),
    {
        SmartHome { id: fresh_id(), name, rooms: Vec::new() }
    }

    /// Lists the rooms, in their stored order (deterministic between calls
    /// when the house is unmodified).
    pub fn get_rooms(&self) -> (r: Vec<&Room>)
        ensures
            r@.len() == self.rooms@.len(),
            forall|i: int| 0 <= i < r@.len() ==> *r@[i] == self.rooms@[i],
    {
        let mut out: Vec<&Room> = Vec::new();
        let mut i: usize = 0;
        while i < self.rooms.len()
            invariant
                i <= self.rooms@.len(),
                out@.len() == i,
                forall|k: int| 0 <= k < i ==> *out@[k] == self.rooms@[k],
            decreases self.rooms@.len() - i,
        {
            out.push(&self.rooms[i]);
            i += 1;
        }
        out
    }

    /// Inserts a room keyed by its own identifier, replacing any prior room
    /// under that identifier.
    pub fn add_room(&mut self, room: Room)
        requires
            old(self).wf(),
            room.wf(),
        ensures
            final(self).id == old(self).id,
            final(self).name == old(self).name,
            final(self).rooms@ == insert_room(old(self).rooms@, room),
            final(self).wf(),
    {
        proof {
            lemma_insert_room_distinct(old(self).rooms@, room);
        }
        let mut i: usize = 0;
        while i < self.rooms.len()
            invariant
                *self == *old(self),
                old(self).wf(),
                room.wf(),
                i <= self.rooms@.len(),
                forall|k: int| 0 <= k < i ==> self.rooms@[k].id != room.id,
            decreases self.rooms@.len() - i,
        {
            if self.rooms[i].id == room.id {
                proof {
                    assert(has_room(self.rooms@, room.id));
                    let c = room_index(self.rooms@, room.id);
                    assert(0 <= c < self.rooms@.len() && self.rooms@[c].id == room.id);
                    if c < i as int {
                        assert(self.rooms@[c].id != room.id);
                    } else if c > i as int {
                        lemma_room_distinct_at(self.rooms@, i as int, c);
                    }
                    assert(c == i as int);
                }
                self.rooms[i] = room;
                proof {
                    assert(self.rooms@ == insert_room(old(self).rooms@, room));
                    lemma_insert_room_distinct(old(self).rooms@, room);
                }
                return ;
            }
            i += 1;
        }
        proof {
            assert(!has_room(self.rooms@, room.id)) by {
                if has_room(self.rooms@, room.id) {
                    let c = room_index(self.rooms@, room.id);
                    assert(0 <= c < self.rooms@.len() && self.rooms@[c].id == room.id);
                }
            }
            lemma_insert_room_distinct(old(self).rooms@, room);
        }
        self.rooms.push(room);
    }

    /// The devices of the room that carries `room_id`: absent when no room of
    /// the house does, otherwise references to that room's devices in their
    /// stored order.
    pub fn devices(&self, room_id: u128) -> (r: Option<Vec<&Device>>)
        requires
            self.wf(),
        ensures
            match r {
                Some(ds) => {
                    &&& has_room(self.rooms@, room_id)
                    &&& ds@.len() == self.rooms@[room_index(self.rooms@, room_id)].devices@.len()
                    &&& forall|k: int|
                        0 <= k < ds@.len() ==> *ds@[k] == self.rooms@[room_index(
                            self.rooms@,
                            room_id,
                        )].devices@[k]
                },
                None => !has_room(self.rooms@, room_id),
            },
    {
        let mut i: usize = 0;
        while i < self.rooms.len()
            invariant
                self.wf(),
                i <= self.rooms@.len(),
                forall|k: int| 0 <= k < i ==> self.rooms@[k].id != room_id,
            decreases self.rooms@.len() - i,
        {
            if self.rooms[i].id == room_id {
                proof {
                    assert(has_room(self.rooms@, room_id));
                    let c = room_index(self.rooms@, room_id);
                    assert(0 <= c < self.rooms@.len() && self.rooms@[c].id == room_id);
                    if c < i as int {
                        assert(self.rooms@[c].id != room_id);
                    } else if c > i as int {
                        lemma_room_distinct_at(self.rooms@, i as int, c);
                    }
                    assert(c == i as int);
                }
                let target_room = &self.rooms[i];
                let mut ds: Vec<&Device> = Vec::new();
                let mut j: usize = 0;
                while j < target_room.devices.len()
                    invariant
                        j <= target_room.devices@.len(),
                        ds@.len() == j,
                        forall|k: int| 0 <= k < j ==> *ds@[k] == target_room.devices@[k],
                    decreases target_room.devices@.len() - j,
                {
                    ds.push(&target_room.devices[j]);
                    j += 1;
                }
                return Some(ds);
            }
            i += 1;
        }
        proof {
            assert(!has_room(self.rooms@, room_id)) by {
                if has_room(self.rooms@, room_id) {
                    let c = room_index(self.rooms@, room_id);
                    assert(0 <= c < self.rooms@.len() && self.rooms@[c].id == room_id);
                }
            }
        }
        None
    }

    /// Renders the house's description text.
    pub fn describe(&self) -> (r: String)
        ensures
            r@ == home_desc(*self),
    {
        let mut s = String::new();
        s.append("id: ");
        let idt = id_text(self.id);
        s.append(idt.as_str());
        s.append("\nHome: ");
        s.append(self.name.as_str());
        proof {
            assert(s@ =~= home_desc(*self));
        }
        s
    }

    /// Generates the report: the house's own line, then one block per room —
    /// each device's status text as the provider reports it, or the fixed
    /// marker line for a room with no devices, with a blank separator after
    /// every block. Total for every house and every provider, and never
    /// empty.
    pub fn create_report<T: DeviceInfoProvider>(&self, provider: &T) -> (r: String)
        ensures
            r@ == report_seq(*provider, *self),
            r@.len() > 0,
    {
        let mut report = String::new();
        let own = self.describe();
        report.append(own.as_str());
        report.append("\n");
        let mut i: usize = 0;
        while i < self.rooms.len()
            invariant
                i <= self.rooms@.len(),
                report@ == home_desc(*self) + "\n"@ + room_blocks(
                    *provider,
                    self.rooms@.take(i as int),
                ),
            decreases self.rooms@.len() - i,
        {
            let room = &self.rooms[i];
            let ghost pre = report@;
            if room.devices.len() == 0 {
                report.append("No devices in this room");
                report.append("\n");
                report.append("\n");
                proof {
                    assert(report@ =~= pre + room_block(*provider, *room));
                }
            } else {
                let mut j: usize = 0;
                while j < room.devices.len()
                    invariant
                        j <= room.devices@.len(),
                        report@ == pre + device_lines(*provider, *room, room.devices@.take(j as int)),
                    decreases room.devices@.len() - j,
                {
                    let line = provider.get_device_info(room, &room.devices[j]);
                    report.append(line.as_str());
                    report.append("\n");
                    proof {
                        let taken = room.devices@.take(j as int + 1);
                        assert(taken.drop_last() =~= room.devices@.take(j as int));
                        assert(taken.last() == room.devices@[j as int]);
                        assert(device_lines(*provider, *room, taken.drop_last()) == device_lines(
                            *provider,
                            *room,
                            room.devices@.take(j as int),
                        ));
                        assert(report@ =~= pre + device_lines(*provider, *room, taken));
                    }
                    j += 1;
                }
                report.append("\n");
                proof {
                    assert(room.devices@.take(room.devices@.len() as int) =~= room.devices@);
                    assert(report@ =~= pre + room_block(*provider, *room));
                }
            }
            proof {
                let taken = self.rooms@.take(i as int + 1);
                assert(taken.drop_last() =~= self.rooms@.take(i as int));
                assert(taken.last() == self.rooms@[i as int]);
                assert(room_blocks(*provider, taken.drop_last()) == room_blocks(
                    *provider,
                    self.rooms@.take(i as int),
                ));
                assert(report@ =~= home_desc(*self) + "\n"@ + room_blocks(*provider, taken));
            }
            i += 1;
        }
        proof {
            assert(self.rooms@.take(self.rooms@.len() as int) =~= self.rooms@);
            assert(report@ =~= report_seq(*provider, *self));
            reveal_strlit("id: ");
            assert(report@.len() > 0);
        }
        report
    }
}

} // verus!
