//! Devices: the closed set of leaf entities of the registry. A device is
//! either a smart socket or a smart thermometer; each carries an identifier
//! assigned at construction, a display name, and variant-specific state.
//!
//! Readings are held as fixed-point integers so that the contracts can speak
//! of them exactly: a socket's power draw in hundredths of a unit (so
//! `[0.00, 100.00]` is `0..=10000`), a thermometer's temperature in tenths of
//! a degree (so 18.8 degrees is 188).

use crate::ids::{fresh_id, id_seq, id_text};
use crate::text::{dec_seq, digit_char, push_dec, push_digit};
use rand::RngExt;
use vstd::prelude::*;

verus! {

/// A smart socket: a power switch with a live power-draw reading.
///
/// `power` is the draw in hundredths; it is sampled when the socket is
/// switched on and reset to zero when it is switched off.
#[derive(Clone)]
pub struct SmartSocket {
    pub id: u128,
    pub name: String,
    pub state: bool,
    pub power: u64,
}

/// A smart thermometer: a temperature reading in tenths of a degree.
#[derive(Clone)]
pub struct SmartThermometer {
    pub id: u128,
    pub name: String,
    pub temperature: i64,
}

/// A device of the registry: one of a closed set of variants.
#[derive(Clone)]
pub enum Device {
    Socket(SmartSocket),
    Thermometer(SmartThermometer),
}

/// The identifier a device carries, whatever its variant.
pub open spec fn device_id(d: Device) -> u128 {
    match d {
        Device::Socket(s) => s.id,
        Device::Thermometer(t) => t.id,
    }
}

/// The text of a power-draw reading in hundredths: the integer part in
/// decimal, then the fractional digits with trailing zeros dropped, as a
/// plain decimal reading would print.
pub open spec fn power_seq(p: nat) -> Seq<char> {
    dec_seq(p / 100) + if p % 100 == 0 {
        Seq::<char>::empty()
    } else {
        seq!['.', digit_char((p / 10) % 10)] + if p % 10 == 0 {
            Seq::<char>::empty()
        } else {
            seq![digit_char(p % 10)]
        }
    }
}

/// The text of a temperature reading in tenths: optional sign, integer part,
/// and the tenths digit when it is not zero.
pub open spec fn temp_seq(t: int) -> Seq<char> {
    let m = (if t < 0 {
        -t
    } else {
        t
    }) as nat;
    (if t < 0 {
        seq!['-']
    } else {
        Seq::<char>::empty()
    }) + dec_seq(m / 10) + if m % 10 == 0 {
        Seq::<char>::empty()
    } else {
        seq!['.', digit_char(m % 10)]
    }
}

/// The description of a socket: identifier line, then name, state and power.
pub open spec fn socket_desc(s: SmartSocket) -> Seq<char> {
    "id: "@ + id_seq(s.id) + "\nSmartSocket: "@ + s.name@ + ", State: "@ + (if s.state {
        "On"@
    } else {
        "Off"@
    }) + ", Power: "@ + power_seq(s.power as nat)
}

/// The description of a thermometer: identifier line, then name and reading.
pub open spec fn thermo_desc(t: SmartThermometer) -> Seq<char> {
    "id: "@ + id_seq(t.id) + "\nSmartThermometer: "@ + t.name@ + ", temperature: "@ + temp_seq(
        t.temperature as int,
    ) + "\u{b0}C"@
}

/// The description of a device, by its variant.
pub open spec fn device_desc(d: Device) -> Seq<char> {
    match d {
        Device::Socket(s) => socket_desc(s),
        Device::Thermometer(t) => thermo_desc(t),
    }
}

/// Relies on rand's RngExt::random_range over an inclusive integer range:
/// the sample is uniform in `0..=10000` (a power reading in hundredths,
/// covering `[0.00, 100.00]` with two-decimal precision), and the range is
/// non-empty, so the call does not panic. The value is random; only its
/// bound is promised.
#[verifier::external_body]
fn sample_power_hundredths() -> (r: u64)
    ensures
        r <= 10000,
{
    rand::rng().random_range(0..=10000u64)
}

/// Appends the text of a power-draw reading in hundredths.
fn push_power(s: &mut String, p: u64)
    ensures
        final(s)@ == old(s)@ + power_seq(p as nat),
{
    let ghost pre = s@;
    push_dec(s, p / 100);
    if p % 100 != 0 {
        s.append(".");
        proof {
            reveal_strlit(".");
        }
        push_digit(s, (p / 10) % 10);
        if p % 10 != 0 {
            push_digit(s, p % 10);
        }
    }
    proof {
        assert(s@ =~= pre + power_seq(p as nat));
    }
}

/// Appends the text of a temperature reading in tenths.
fn push_temp(s: &mut String, t: i64)
    ensures
        final(s)@ == old(s)@ + temp_seq(t as int),
{
    let ghost pre = s@;
    let m: u64 = if t < 0 {
        (-(t as i128)) as u64
    } else {
        t as u64
    };
    if t < 0 {
        s.append("-");
        proof {
            reveal_strlit("-");
        }
    }
    push_dec(s, m / 10);
    if m % 10 != 0 {
        s.append(".");
        proof {
            reveal_strlit(".");
        }
        push_digit(s, m % 10);
    }
    proof {
        assert(s@ =~= pre + temp_seq(t as int));
    }
}

impl SmartSocket {
    /// Constructs a socket with a freshly generated identifier; the power
    /// state starts off and the power draw at zero.
    pub fn new(name: String) -> (r: SmartSocket)
        ensures
            r.name == name,
            r.state == false,
            r.power == 0,
    {
        SmartSocket { id: fresh_id(), name, state: false, power: 0 }
    }

    /// Sets the power state. Switching on re-samples the power draw (a live
    /// meter reading in `0..=10000` hundredths, even when the socket was
    /// already on); switching off resets it to exactly zero.
    pub fn switch(&mut self, state: bool)
        ensures
            final(self).id == old(self).id,
            final(self).name == old(self).name,
            final(self).state == state,
            state ==> final(self).power <= 10000,
            !state ==> final(self).power == 0,
    {
        self.state = state;
        if state {
            self.power = sample_power_hundredths();
        } else {
            self.power = 0;
        }
    }

    /// Renders the socket's description text.
    pub fn describe(&self) -> (r: String)
        ensures
            r@ == socket_desc(*self),
    {
        let mut s = String::new();
        s.append("id: ");
        let idt = id_text(self.id);
        s.append(idt.as_str());
        s.append("\nSmartSocket: ");
        s.append(self.name.as_str());
        s.append(", State: ");
        if self.state {
            s.append("On");
        } else {
            s.append("Off");
        }
        s.append(", Power: ");
        push_power(&mut s, self.power);
        proof {
            assert(s@ =~= socket_desc(*self));
        }
        s
    }
}

impl SmartThermometer {
    /// Constructs a thermometer with a freshly generated identifier and a
    /// caller-supplied initial reading in tenths of a degree.
    pub fn new(name: String, temperature: i64) -> (r: SmartThermometer)
        ensures
            r.name == name,
            r.temperature == temperature,
    {
        SmartThermometer { id: fresh_id(), name, temperature }
    }

    /// Renders the thermometer's description text.
    pub fn describe(&self) -> (r: String)
        ensures
            r@ == thermo_desc(*self),
    {
        let mut s = String::new();
        s.append("id: ");
        let idt = id_text(self.id);
        s.append(idt.as_str());
        s.append("\nSmartThermometer: ");
        s.append(self.name.as_str());
        s.append(", temperature: ");
        push_temp(&mut s, self.temperature);
        s.append("\u{b0}C");
        proof {
            assert(s@ =~= thermo_desc(*self));
        }
        s
    }
}

impl Device {
    /// Returns the device's immutable identifier; every variant has one, so
    /// the result is always present, and it is a function of the device
    /// alone, so any number of calls agree.
    pub fn get_id(&self) -> (r: Option<u128>)
        ensures
            r == Some(device_id(*self)),
    {
        match self {
            Device::Socket(socket) => Some(socket.id),
            Device::Thermometer(thermometer) => Some(thermometer.id),
        }
    }

    /// Renders the device's description text, by its variant.
    pub fn describe(&self) -> (r: String)
        ensures
            r@ == device_desc(*self),
    {
        match self {
            Device::Socket(socket) => socket.describe(),
            Device::Thermometer(thermometer) => thermometer.describe(),
        }
    }
}

impl From<SmartSocket> for Device {
    fn from(value: SmartSocket) -> (r: Device) {
        Device::Socket(value)
    }
}

impl vstd::std_specs::convert::FromSpecImpl<SmartSocket> for Device {
    open spec fn obeys_from_spec() -> bool {
        true
    }

    open spec fn from_spec(value: SmartSocket) -> Device {
        Device::Socket(value)
    }
}

impl From<SmartThermometer> for Device {
    fn from(value: SmartThermometer) -> (r: Device) {
        Device::Thermometer(value)
    }
}

impl vstd::std_specs::convert::FromSpecImpl<SmartThermometer> for Device {
    open spec fn obeys_from_spec() -> bool {
        true
    }

    open spec fn from_spec(value: SmartThermometer) -> Device {
        Device::Thermometer(value)
    }
}

} // verus!
