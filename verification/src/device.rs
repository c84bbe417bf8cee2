//! Classifying raw device rows from the device bridge.
//!
//! The bridge reports each device as a serial, a state word, and an optional
//! cached model name.  Everything derived from that row — connection type,
//! status, display name, extracted address — is decided here; talking to the
//! bridge itself is the embedding application's job.

use vstd::prelude::*;
use vstd::string::StrSliceExecFns;
use vstd::string::StringExecFns;

use crate::strutil::{contains_seq, str_contains, str_eq};

verus! {

/// Whether the bridge's reply to a wireless connect request reports
/// success: the reply names the endpoint as `connected` (possibly
/// `already connected`).
pub fn connect_reply_ok(reply: &str) -> (r: bool)
    ensures
        r == (contains_seq(reply@, "connected"@) || contains_seq(reply@, "already connected"@)),
{
    str_contains(reply, "connected") || str_contains(reply, "already connected")
}

/// Whether the bridge's reply to a disconnect request reports success.
pub fn disconnect_reply_ok(reply: &str) -> (r: bool)
    ensures
        r == contains_seq(reply@, "disconnected"@),
{
    str_contains(reply, "disconnected")
}

/// How a device is attached.  A serial containing `':'` denotes a wireless
/// endpoint (`address:port`); anything else is a USB serial.
#[derive(Clone, Copy, Debug, PartialEq, Eq)]
pub enum ConnectionType {
    USB,
    Wireless,
}

/// The bridge's state word for a device, classified.
#[derive(Clone, Copy, Debug, PartialEq, Eq)]
pub enum DeviceStatus {
    Connected,
    Disconnected,
    Unauthorized,
    Offline,
}

/// One enumerated device, ready for display.
#[derive(Clone, Debug)]
pub struct Device {
    pub id: String,
    pub name: String,
    pub model: String,
    pub connection_type: ConnectionType,
    pub status: DeviceStatus,
    pub ip_address: Option<String>,
}

/// Mathematical image of a [`Device`].
pub ghost struct DeviceModel {
    pub id: Seq<char>,
    pub name: Seq<char>,
    pub model: Seq<char>,
    pub connection_type: ConnectionType,
    pub status: DeviceStatus,
    pub ip_address: Option<Seq<char>>,
}

impl View for Device {
    type V = DeviceModel;

    open spec fn view(&self) -> DeviceModel {
        DeviceModel {
            id: self.id@,
            name: self.name@,
            model: self.model@,
            connection_type: self.connection_type,
            status: self.status,
            ip_address: match self.ip_address {
                Some(ip) => Some(ip@),
                None => None,
            },
        }
    }
}

impl DeepView for Device {
    type V = DeviceModel;

    open spec fn deep_view(&self) -> DeviceModel {
        self@
    }
}

/// A raw device row as the bridge reports it: the serial, the state word,
/// and the model name when the bridge had it cached.
pub struct AdbDeviceInfo {
    pub serial: String,
    pub state: String,
    pub model: Option<String>,
}

/// Mathematical image of an [`AdbDeviceInfo`].
pub ghost struct AdbDeviceInfoModel {
    pub serial: Seq<char>,
    pub state: Seq<char>,
    pub model: Option<Seq<char>>,
}

impl View for AdbDeviceInfo {
    type V = AdbDeviceInfoModel;

    open spec fn view(&self) -> AdbDeviceInfoModel {
        AdbDeviceInfoModel {
            serial: self.serial@,
            state: self.state@,
            model: match self.model {
                Some(m) => Some(m@),
                None => None,
            },
        }
    }
}

impl DeepView for AdbDeviceInfo {
    type V = AdbDeviceInfoModel;

    open spec fn deep_view(&self) -> AdbDeviceInfoModel {
        self@
    }
}

/// The position of the first `':'` in `s`; meaningful only when `s`
/// contains one.
pub open spec fn first_colon(s: Seq<char>) -> int {
    choose|i: int|
        0 <= i < s.len() && s[i] == ':' && (forall|j: int| 0 <= j < i ==> s[j] != ':')
}

/// Whether a serial denotes a wireless endpoint.
pub open spec fn is_wireless(serial: Seq<char>) -> bool {
    serial.contains(':')
}

/// The status a state word classifies to; an unrecognized word counts as
/// disconnected.
pub open spec fn status_of(state: Seq<char>) -> DeviceStatus {
    if state == "device"@ {
        DeviceStatus::Connected
    } else if state == "unauthorized"@ {
        DeviceStatus::Unauthorized
    } else if state == "offline"@ {
        DeviceStatus::Offline
    } else {
        DeviceStatus::Disconnected
    }
}

/// The model name to report: the bridge's, or `"Unknown"` when it had none.
pub open spec fn model_of(model: Option<Seq<char>>) -> Seq<char> {
    match model {
        Some(m) => m,
        None => "Unknown"@,
    }
}

/// The display name: the model, unless it is unknown.
pub open spec fn name_of(model: Option<Seq<char>>) -> Seq<char> {
    if model_of(model) == "Unknown"@ {
        "Unknown Device"@
    } else {
        model_of(model)
    }
}

/// The address part of a wireless serial: everything before the first `':'`.
pub open spec fn ip_of(serial: Seq<char>) -> Option<Seq<char>> {
    if is_wireless(serial) {
        Some(serial.subrange(0, first_colon(serial)))
    } else {
        None
    }
}

/// The device a raw bridge row classifies to.
pub open spec fn device_of(a: AdbDeviceInfoModel) -> DeviceModel {
    DeviceModel {
        id: a.serial,
        name: name_of(a.model),
        model: model_of(a.model),
        connection_type: if is_wireless(a.serial) {
            ConnectionType::Wireless
        } else {
            ConnectionType::USB
        },
        status: status_of(a.state),
        ip_address: ip_of(a.serial),
    }
}

/// Finds the first `':'` in `s`, if any.
fn find_colon(s: &str) -> (r: Option<usize>)
    ensures
        match r {
            Some(i) => i < s@.len() && s@[i as int] == ':' && (forall|j: int|
                0 <= j < i ==> s@[j] != ':') && is_wireless(s@) && i == first_colon(s@),
            None => !is_wireless(s@),
        },
{
    let n = s.unicode_len();
    let mut i: usize = 0;
    while i < n
        invariant
            n == s@.len(),
            i <= n,
            forall|j: int| 0 <= j < i ==> s@[j] != ':',
        decreases n - i,
    {
        if s.get_char(i) == ':' {
            proof {
                assert(is_wireless(s@));
                let c = first_colon(s@);
                assert(0 <= c < s@.len() && s@[c] == ':' && (forall|j: int|
                    0 <= j < c ==> s@[j] != ':'));
                if c < i as int {
                    assert(s@[c] != ':');
                } else if c > i as int {
                    assert(s@[i as int] != ':');
                }
            }
            return Some(i);
        }
        i = i + 1;
    }
    proof {
        if is_wireless(s@) {
            let w = choose|w: int| 0 <= w < s@.len() && s@[w] == ':';
            assert(s@[w] != ':');
        }
    }
    None
}

/// Classifies one raw bridge row into a device.
pub fn device_from_adb(info: AdbDeviceInfo) -> (r: Device)
    ensures
        r@ == device_of(info@),
{
    let AdbDeviceInfo { serial, state, model } = info;
    let colon = find_colon(serial.as_str());
    let connection_type = match colon {
        Some(_) => ConnectionType::Wireless,
        None => ConnectionType::USB,
    };
    let ip_address = match colon {
        Some(i) => Some(serial.as_str().substring_char(0, i).to_owned()),
        None => None,
    };
    let status = if str_eq(state.as_str(), "device") {
        DeviceStatus::Connected
    } else if str_eq(state.as_str(), "unauthorized") {
        DeviceStatus::Unauthorized
    } else if str_eq(state.as_str(), "offline") {
        DeviceStatus::Offline
    } else {
        DeviceStatus::Disconnected
    };
    let model_name = match model {
        Some(m) => m,
        None => String::from_str("Unknown"),
    };
    let name = if str_eq(model_name.as_str(), "Unknown") {
        String::from_str("Unknown Device")
    } else {
        model_name.clone()
    };
    Device { id: serial, name, model: model_name, connection_type, status, ip_address }
}

/// Classifies every raw bridge row, in order.
pub fn devices_from_adb(list: Vec<AdbDeviceInfo>) -> (r: Vec<Device>)
    ensures
        r.deep_view() == list.deep_view().map_values(|a: AdbDeviceInfoModel| device_of(a)),
{
    let ghost orig = list.deep_view();
    let mut remaining = list;
    let mut out: Vec<Device> = Vec::new();
    while remaining.len() > 0
        invariant
            out.deep_view().len() + remaining.deep_view().len() == orig.len(),
            remaining.deep_view() == orig.subrange(out.deep_view().len() as int, orig.len() as int),
            forall|j: int|
                0 <= j < out.deep_view().len() ==> out.deep_view()[j] == device_of(orig[j]),
        decreases remaining.len(),
    {
        let ghost k = out.deep_view().len() as int;
        let ghost before = remaining.deep_view();
        let ghost bv = remaining@;
        let a = remaining.remove(0);
        proof {
            assert(a@ == before[0]);
            assert(before[0] == orig[k]);
            assert forall|x: int| 0 <= x < remaining.deep_view().len() implies remaining.deep_view()[x]
                == orig[k + 1 + x] by {
                assert(remaining@[x] == bv[x + 1]);
                assert(remaining.deep_view()[x] == remaining@[x]@);
                assert(before[x + 1] == bv[x + 1]@);
                assert(before[x + 1] == orig[k + 1 + x]);
            }
            assert(remaining.deep_view() =~= orig.subrange(k + 1, orig.len() as int));
        }
        let ghost prev = out.deep_view();
        let d = device_from_adb(a);
        out.push(d);
        proof {
            assert(out.deep_view() =~= prev.push(device_of(orig[k])));
        }
    }
    proof {
        assert(out.deep_view() =~= orig.map_values(|a: AdbDeviceInfoModel| device_of(a)));
    }
    out
}

} // verus!
