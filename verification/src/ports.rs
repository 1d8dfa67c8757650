//! Port descriptors: what is reported of each serial device that the
//! platform lists.

use vstd::prelude::*;

verus! {

/// The USB identity of a device.
#[derive(Clone, Debug, PartialEq, Eq)]
pub struct UsbIdentity {
    pub vid: u16,
    pub pid: u16,
    pub manufacturer: Option<String>,
}

/// A device as the platform lists it: its path, and its USB identity where it
/// is a USB device.
#[derive(Clone, Debug, PartialEq, Eq)]
pub struct DetectedPort {
    pub name: String,
    pub usb: Option<UsbIdentity>,
}

/// The descriptor of a serial device.
#[derive(Clone, Debug, PartialEq, Eq)]
pub struct PortInfo {
    pub id: String,
    pub name: String,
    pub manufacturer: Option<String>,
    pub vid: Option<u16>,
    pub pid: Option<u16>,
}

/// The platform could not list its serial devices.
#[derive(Clone, Debug, PartialEq, Eq)]
pub struct EnumerationError {
    pub message: String,
}

/// The text of a descriptor.
pub struct PortInfoView {
    pub id: Seq<char>,
    pub name: Seq<char>,
    pub manufacturer: Option<Seq<char>>,
    pub vid: Option<u16>,
    pub pid: Option<u16>,
}

/// The text of an optional string.
pub open spec fn text_of(s: Option<String>) -> Option<Seq<char>> {
    match s {
        Some(t) => Some(t@),
        None => None,
    }
}

impl View for PortInfo {
    type V = PortInfoView;

    open spec fn view(&self) -> PortInfoView {
        PortInfoView {
            id: self.id@,
            name: self.name@,
            manufacturer: text_of(self.manufacturer),
            vid: self.vid,
            pid: self.pid,
        }
    }
}

/// The descriptor of a listed device. Identifier and name are both the
/// device path. Vendor, product and manufacturer are given for a USB device
/// and absent, all three, for any other.
pub open spec fn described(port: DetectedPort) -> PortInfoView {
    match port.usb {
        Some(usb) => PortInfoView {
            id: port.name@,
            name: port.name@,
            manufacturer: text_of(usb.manufacturer),
            vid: Some(usb.vid),
            pid: Some(usb.pid),
        },
        None => PortInfoView {
            id: port.name@,
            name: port.name@,
            manufacturer: None,
            vid: None,
            pid: None,
        },
    }
}

/// The descriptors of a list of devices, in the same order.
pub open spec fn described_all(ports: Seq<DetectedPort>) -> Seq<PortInfoView> {
    Seq::new(ports.len(), |i: int| described(ports[i]))
}

/// The text of each descriptor.
pub open spec fn port_views(ports: Seq<PortInfo>) -> Seq<PortInfoView> {
    Seq::new(ports.len(), |i: int| ports[i]@)
}

impl PortInfo {
    /// The descriptor of a listed device.
    pub fn describe(port: DetectedPort) -> (info: PortInfo)
        ensures
            info@ == described(port),
    {
        let id = port.name.clone();
        match port.usb {
            Some(usb) => PortInfo {
                id,
                name: port.name,
                manufacturer: usb.manufacturer,
                vid: Some(usb.vid),
                pid: Some(usb.pid),
            },
            None => PortInfo { id, name: port.name, manufacturer: None, vid: None, pid: None },
        }
    }
}

/// Turns what the platform listed into descriptors. The listing fails only
/// where the platform call failed, and then with the platform's message; an
/// empty list is a success.
pub fn list_ports(found: Result<Vec<DetectedPort>, String>) -> (listed: Result<
    Vec<PortInfo>,
    EnumerationError,
>)
    ensures
        match found {
            Ok(ports) => listed matches Ok(infos) && port_views(infos@) == described_all(ports@),
            Err(message) => listed matches Err(e) && e.message == message,
        },
{
    match found {
        Ok(ports) => {
            let ghost all = ports@;
            let mut infos: Vec<PortInfo> = Vec::new();
            for port in it: ports
                invariant
                    it.seq() == all,
                    infos.len() == it.index(),
                    forall|j: int| 0 <= j < infos.len() ==> infos[j]@ == described(all[j]),
            {
                infos.push(PortInfo::describe(port));
            }
            assert(port_views(infos@) =~= described_all(all));
            Ok(infos)
        },
        Err(message) => Err(EnumerationError { message }),
    }
}

} // verus!
