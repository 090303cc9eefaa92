//! Rooms: identity-keyed collections of devices. A room owns its devices,
//! keyed by their own identifiers; inserting a device whose identifier is
//! already present replaces the prior entry (last write wins).

use crate::device::{device_id, Device};
use crate::ids::{fresh_id, id_seq, id_text};
use vstd::prelude::*;

verus! {

/// A room of the house: identifier, display name, and the devices it owns.
///
/// The devices stand in insertion order; `wf` says their identifiers are
/// pairwise distinct, so the sequence behaves as a keyed map.
#[derive(Clone)]
pub struct Room {
    pub id: u128,
    pub name: String,
    pub devices: Vec<Device>,
}

/// The device identifiers of `s` are pairwise distinct.
pub open spec fn device_ids_distinct(s: Seq<Device>) -> bool {
    forall|i: int, j: int|
        0 <= i < j < s.len() ==> device_id(s[i]) != device_id(s[j])
}

/// Some device of `s` carries the identifier `id`.
pub open spec fn has_device(s: Seq<Device>, id: u128) -> bool {
    exists|i: int| 0 <= i < s.len() && device_id(s[i]) == id
}

/// The position of the device of `s` that carries `id` (meaningful when
/// `has_device(s, id)` holds; unique when the identifiers are distinct).
pub open spec fn device_index(s: Seq<Device>, id: u128) -> int {
    choose|i: int| 0 <= i < s.len() && device_id(s[i]) == id
}

/// Keyed insertion: a device whose identifier is already present replaces
/// the prior entry; otherwise the device is appended.
pub open spec fn insert_device(s: Seq<Device>, d: Device) -> Seq<Device> {
    if has_device(s, device_id(d)) {
        s.update(device_index(s, device_id(d)), d)
    } else {
        s.push(d)
    }
}

/// Two positions of a sequence with pairwise distinct identifiers carry
/// different identifiers.
pub proof fn lemma_distinct_at(s: Seq<Device>, i: int, j: int)
    requires
        device_ids_distinct(s),
        0 <= i < j < s.len(),
    ensures
        device_id(s[i]) != device_id(s[j]),
{
}

/// Keyed insertion keeps the identifiers pairwise distinct.
pub proof fn lemma_insert_device_distinct(s: Seq<Device>, d: Device)
    requires
        device_ids_distinct(s),
    ensures
        device_ids_distinct(insert_device(s, d)),
{
    if has_device(s, device_id(d)) {
        let j = device_index(s, device_id(d));
        assert(0 <= j < s.len() && device_id(s[j]) == device_id(d));
        assert forall|i: int, k: int|
            0 <= i < k < insert_device(s, d).len() implies device_id(insert_device(s, d)[i])
            != device_id(insert_device(s, d)[k]) by {
            assert(device_id(insert_device(s, d)[i]) == device_id(s[i]));
            assert(device_id(insert_device(s, d)[k]) == device_id(s[k]));
        }
    } else {
        assert forall|i: int, k: int|
            0 <= i < k < insert_device(s, d).len() implies device_id(insert_device(s, d)[i])
            != device_id(insert_device(s, d)[k]) by {
            if k < s.len() {
            } else {
                assert(device_id(insert_device(s, d)[k]) == device_id(d));
                assert(!has_device(s, device_id(d)));
                assert(device_id(s[i]) != device_id(d)) by {
                    if device_id(s[i]) == device_id(d) {
                        assert(has_device(s, device_id(d)));
                    }
                }
            }
        }
    }
}

/// Law: after inserting a device `d` and then a device `d2` that carries the
/// same identifier, the device count is unchanged and the entry under that
/// identifier is `d2` (replacement, not merge).
pub proof fn lemma_insert_device_replaces(s: Seq<Device>, d: Device, d2: Device)
    requires
        device_ids_distinct(s),
        device_id(d2) == device_id(d),
    ensures
        ({
            let once = insert_device(s, d);
            let twice = insert_device(once, d2);
            &&& twice.len() == once.len()
            &&& has_device(twice, device_id(d2))
            &&& twice[device_index(twice, device_id(d2))] == d2
        }),
{
    let id = device_id(d);
    let once = insert_device(s, d);
    lemma_insert_device_distinct(s, d);
    let j: int = if has_device(s, id) {
        device_index(s, id)
    } else {
        s.len() as int
    };
    assert(0 <= j < once.len() && device_id(once[j]) == id);
    assert(has_device(once, id));
    let k = device_index(once, id);
    assert(0 <= k < once.len() && device_id(once[k]) == id);
    let twice = insert_device(once, d2);
    assert(twice == once.update(k, d2));
    assert(twice.len() == once.len());
    assert(device_id(twice[k]) == id);
    assert(has_device(twice, id));
    let m = device_index(twice, id);
    assert(0 <= m < twice.len() && device_id(twice[m]) == id);
    lemma_insert_device_distinct(once, d2);
    assert(m == k);
    assert(twice[m] == d2);
}

/// The description of a room: identifier line, then its name.
pub open spec fn room_desc(r: Room) -> Seq<char> {
    "id: "@ + id_seq(r.id) + "\nRoom: "@ + r.name@
}

impl Room {
    /// Validity: the owned devices carry pairwise distinct identifiers.
    pub open spec fn wf(self) -> bool {
        device_ids_distinct(self.devices@)
    }

    /// Constructs a room with a freshly generated identifier and no devices.
    pub fn new(name: String) -> (r: Room)
        ensures
            r.name == name,
            r.devices@.len() == 0,
            r.wf(),
    {
        Room { id: fresh_id(), name, devices: Vec::new() }
    }

    /// Inserts a device keyed by its own identifier, replacing any prior
    /// device under that identifier.
    pub fn add_device(&mut self, device: Device)
        requires
            old(self).wf(),
        ensures
            final(self).id == old(self).id,
            final(self).name == old(self).name,
            final(self).devices@ == insert_device(old(self).devices@, device),
            final(self).wf(),
    {
        let id = match device.get_id() {
            Some(id) => id,
            None => {
                return ;
            },
        };
        proof {
            lemma_insert_device_distinct(old(self).devices@, device);
        }
        let mut i: usize = 0;
        while i < self.devices.len()
            invariant
                *self == *old(self),
                old(self).wf(),
                i <= self.devices@.len(),
                forall|k: int| 0 <= k < i ==> device_id(self.devices@[k]) != id,
                id == device_id(device),
            decreases self.devices@.len() - i,
        {
            let here = match self.devices[i].get_id() {
                Some(h) => h,
                None => {
                    return ;
                },
            };
            if here == id {
                proof {
                    assert(device_ids_distinct(self.devices@));
                    assert(device_id(self.devices@[i as int]) == id);
                    assert(has_device(self.devices@, id));
                    let c = device_index(self.devices@, id);
                    assert(0 <= c < self.devices@.len() && device_id(self.devices@[c]) == id);
                    if c < i as int {
                        assert(device_id(self.devices@[c]) != id);
                    } else if c > i as int {
                        lemma_distinct_at(self.devices@, i as int, c);
                    }
                    assert(c == i as int);
                }
                self.devices[i] = device;
                proof {
                    assert(self.devices@ == insert_device(old(self).devices@, device));
                }
                return ;
            }
            i += 1;
        }
        proof {
            assert(!has_device(self.devices@, id)) by {
                if has_device(self.devices@, id) {
                    let c = device_index(self.devices@, id);
                    assert(0 <= c < self.devices@.len() && device_id(self.devices@[c]) == id);
                }
            }
            lemma_insert_device_distinct(old(self).devices@, device);
        }
        self.devices.push(device);
    }

    /// Lists the devices, in their stored order (deterministic between calls
    /// when the room is unmodified; callers must not rely on more).
    pub fn list_devices(&self) -> (r: Vec<&Device>)
        ensures
            r@.len() == self.devices@.len(),
            forall|i: int| 0 <= i < r@.len() ==> *r@[i] == self.devices@[i],
    {
        let mut out: Vec<&Device> = Vec::new();
        let mut i: usize = 0;
        while i < self.devices.len()
            invariant
                i <= self.devices@.len(),
                out@.len() == i,
                forall|k: int| 0 <= k < i ==> *out@[k] == self.devices@[k],
            decreases self.devices@.len() - i,
        {
            out.push(&self.devices[i]);
            i += 1;
        }
        out
    }

    /// Renders the room's description text.
    pub fn describe(&self) -> (r: String)
        ensures
            r@ == room_desc(*self),
    {
        let mut s = String::new();
        s.append("id: ");
        let idt = id_text(self.id);
        s.append(idt.as_str());
        s.append("\nRoom: ");
        s.append(self.name.as_str());
        proof {
            assert(s@ =~= room_desc(*self));
        }
        s
    }
}

} // verus!
